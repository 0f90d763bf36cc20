//! The deployment stage and the service configuration.

use vstd::prelude::*;

verus! {

/// The deployment stage.
#[derive(Debug, Clone, Copy, PartialEq, Eq, Structural)]
pub enum Stage {
    Development,
    Staging,
    Production,
}

impl Stage {
    /// The lowercase name of the stage.
    pub fn as_str(&self) -> (r: &'static str)
        ensures
            r@ == match *self {
                Stage::Development => "development"@,
                Stage::Staging => "staging"@,
                Stage::Production => "production"@,
            },
    {
        match self {
            Stage::Development => "development",
            Stage::Staging => "staging",
            Stage::Production => "production",
        }
    }

    /// The stage of a name; an unknown name means development.
    pub fn from_name(name: &str) -> (r: Stage)
        ensures
            name@ == "staging"@ ==> r == Stage::Staging,
            name@ == "production"@ ==> r == Stage::Production,
            name@ != "staging"@ && name@ != "production"@ ==> r == Stage::Development,
    {
        let s = crate::text::chars_of(name);
        let staging = vec!['s', 't', 'a', 'g', 'i', 'n', 'g'];
        let production = vec!['p', 'r', 'o', 'd', 'u', 'c', 't', 'i', 'o', 'n'];
        proof {
            reveal_strlit("staging");
            reveal_strlit("production");
        }
        if same_chars(&s, &staging) {
            proof {
                assert(name@ =~= "staging"@);
            }
            Stage::Staging
        } else if same_chars(&s, &production) {
            proof {
                assert(name@ =~= "production"@);
            }
            Stage::Production
        } else {
            proof {
                assert(name@ != "staging"@) by {
                    if name@ == "staging"@ {
                        assert(s@ =~= staging@);
                    }
                }
                assert(name@ != "production"@) by {
                    if name@ == "production"@ {
                        assert(s@ =~= production@);
                    }
                }
            }
            Stage::Development
        }
    }
}

/// Whether two character sequences are equal.
fn same_chars(a: &Vec<char>, b: &Vec<char>) -> (r: bool)
    ensures
        r == (a@ == b@),
{
    if a.len() != b.len() {
        return false;
    }
    let mut i: usize = 0;
    while i < a.len()
        invariant
            i <= a@.len() == b@.len(),
            forall|k: int| 0 <= k < i ==> a@[k] == b@[k],
        decreases a@.len() - i,
    {
        if a[i] != b[i] {
            return false;
        }
        i = i + 1;
    }
    proof {
        assert(a@ =~= b@);
    }
    true
}

/// The configuration the services read.
#[derive(Debug, Clone)]
pub struct Config {
    pub stage: Stage,
    pub admin_auth_code: String,
    pub search_url: String,
    pub email_service_auth_token: String,
    pub kv_db_dir: String,
    pub ai_service_auth_token: String,
}

/// The service that reads the configuration.
pub struct ConfigService {}

impl ConfigService {
    /// A configuration service.
    pub fn new() -> (r: ConfigService) {
        ConfigService {}
    }

    /// The directory of the key-value store for a stage.
    pub fn kv_db_dir(stage: Stage) -> (r: String)
        ensures
            stage == Stage::Development ==> r@ == "./kv_db_data"@,
            stage != Stage::Development ==> r@ == "~/asj/kv_db"@,
    {
        match stage {
            Stage::Development => "./kv_db_data".to_owned(),
            _ => "~/asj/kv_db".to_owned(),
        }
    }
}

} // verus!
