//! Splitting text into words.

use vstd::prelude::*;
use vstd::std_specs::iter::IteratorSpec;

verus! {

/// What `char::is_alphanumeric` answers for a character (Unicode
/// `Alphabetic` or `Numeric`).
pub uninterp spec fn is_alnum(c: char) -> bool;

/// What `str::to_lowercase` returns for a string.
pub uninterp spec fn lower_of(s: Seq<char>) -> Seq<char>;

/// Relies on `char::is_alphanumeric`: its answer depends on the character alone.
#[verifier::external_body]
fn char_is_alphanumeric(c: char) -> (r: bool)
    ensures
        r == is_alnum(c),
{
    c.is_alphanumeric()
}

/// Relies on `str::to_lowercase`: the result depends on the characters alone.
#[verifier::external_body]
pub(crate) fn lowercase(s: &str) -> (r: String)
    ensures
        r@ == lower_of(s@),
{
    s.to_lowercase()
}

/// The characters of the string, in order.
pub(crate) fn chars_of(s: &str) -> (r: Vec<char>)
    ensures
        r@ == s@,
{
    broadcast use vstd::string::group_string_axioms;

    let mut it = s.chars();
    let mut out: Vec<char> = Vec::new();
    loop
        invariant
            out@ + it.remaining() == s@,
        decreases s@.len() - out@.len(),
    {
        let ghost before = it.remaining();
        match it.next() {
            Some(c) => {
                let ghost prev = out@;
                out.push(c);
                proof {
                    assert(before.len() > 0);
                    assert(out@ + it.remaining() =~= prev + before);
                }
            },
            None => {
                proof {
                    assert(before.len() == 0);
                    assert(out@ =~= s@);
                }
                return out;
            },
        }
    }
}

/// Relies on `String: FromIterator<&char>`: the string of these characters, in order.
#[verifier::external_body]
pub(crate) fn string_of(v: &Vec<char>) -> (r: String)
    ensures
        r@ == v@,
{
    v.iter().collect()
}

/// The views of a sequence of strings.
pub open spec fn views_of(v: Seq<String>) -> Seq<Seq<char>> {
    v.map_values(|w: String| w@)
}

/// The run of alphanumeric characters at the end of `s`.
pub open spec fn current_run(s: Seq<char>) -> Seq<char>
    decreases s.len(),
{
    if s.len() == 0 {
        Seq::empty()
    } else if is_alnum(s.last()) {
        current_run(s.drop_last()).push(s.last())
    } else {
        Seq::empty()
    }
}

/// The pieces of `s` that a non-alphanumeric character has closed, empty ones
/// included.
pub open spec fn closed_pieces(s: Seq<char>) -> Seq<Seq<char>>
    decreases s.len(),
{
    if s.len() == 0 {
        Seq::empty()
    } else if is_alnum(s.last()) {
        closed_pieces(s.drop_last())
    } else {
        closed_pieces(s.drop_last()).push(current_run(s.drop_last()))
    }
}

/// `s` split at every non-alphanumeric character: n separators give n + 1
/// pieces, some of them possibly empty.
pub open spec fn pieces(s: Seq<char>) -> Seq<Seq<char>> {
    closed_pieces(s).push(current_run(s))
}

/// The non-empty pieces that a non-alphanumeric character has closed.
pub open spec fn closed_words(s: Seq<char>) -> Seq<Seq<char>>
    decreases s.len(),
{
    if s.len() == 0 {
        Seq::empty()
    } else if is_alnum(s.last()) || current_run(s.drop_last()).len() == 0 {
        closed_words(s.drop_last())
    } else {
        closed_words(s.drop_last()).push(current_run(s.drop_last()))
    }
}

/// The maximal runs of alphanumeric characters of `s`, in order: its pieces
/// without the empty ones.
pub open spec fn words(s: Seq<char>) -> Seq<Seq<char>> {
    if current_run(s).len() > 0 {
        closed_words(s).push(current_run(s))
    } else {
        closed_words(s)
    }
}

/// The tokens of a text: the words of its lowercase form.
pub open spec fn tokens(s: Seq<char>) -> Seq<Seq<char>> {
    words(lower_of(s))
}

proof fn lemma_current_run_alnum(s: Seq<char>)
    ensures
        forall|k: int| 0 <= k < current_run(s).len() ==> is_alnum(#[trigger] current_run(s)[k]),
    decreases s.len(),
{
    if s.len() > 0 {
        lemma_current_run_alnum(s.drop_last());
        if is_alnum(s.last()) {
            let prev = current_run(s.drop_last());
            assert forall|k: int| 0 <= k < current_run(s).len() implies is_alnum(
                #[trigger] current_run(s)[k],
            ) by {
                if k < prev.len() {
                    assert(current_run(s)[k] == prev[k]);
                }
            }
        }
    }
}

proof fn lemma_closed_words_valid(s: Seq<char>)
    ensures
        forall|i: int| 0 <= i < closed_words(s).len() ==> is_word(#[trigger] closed_words(s)[i]),
    decreases s.len(),
{
    if s.len() > 0 {
        lemma_closed_words_valid(s.drop_last());
        lemma_current_run_alnum(s.drop_last());
        let prev = closed_words(s.drop_last());
        assert forall|i: int| 0 <= i < closed_words(s).len() implies is_word(
            #[trigger] closed_words(s)[i],
        ) by {
            if i < prev.len() {
                assert(closed_words(s)[i] == prev[i]);
            }
        }
    }
}

/// A token: non-empty and made of alphanumeric characters only.
pub open spec fn is_word(w: Seq<char>) -> bool {
    w.len() > 0 && forall|k: int| 0 <= k < w.len() ==> is_alnum(#[trigger] w[k])
}

/// Every word of a text is non-empty and alphanumeric only.
pub proof fn lemma_words_are_valid(s: Seq<char>)
    ensures
        forall|i: int| 0 <= i < words(s).len() ==> is_word(#[trigger] words(s)[i]),
{
    lemma_closed_words_valid(s);
    lemma_current_run_alnum(s);
}

/// Splits at every non-alphanumeric character; for `n` separators the result
/// has `n + 1` pieces, empty ones kept.
fn split_pieces(cs: &Vec<char>, keep_empty: bool) -> (r: Vec<String>)
    ensures
        keep_empty ==> views_of(r@) == pieces(cs@),
        !keep_empty ==> views_of(r@) == words(cs@),
{
    let mut out: Vec<String> = Vec::new();
    let mut cur: Vec<char> = Vec::new();
    let mut i: usize = 0;
    while i < cs.len()
        invariant
            i <= cs@.len(),
            cur@ == current_run(cs@.take(i as int)),
            keep_empty ==> views_of(out@) == closed_pieces(cs@.take(i as int)),
            !keep_empty ==> views_of(out@) == closed_words(cs@.take(i as int)),
        decreases cs@.len() - i,
    {
        let c = cs[i];
        proof {
            assert(cs@.take(i as int + 1).drop_last() =~= cs@.take(i as int));
            assert(cs@.take(i as int + 1).last() == c);
        }
        if char_is_alphanumeric(c) {
            cur.push(c);
        } else {
            if keep_empty || cur.len() > 0 {
                let w = string_of(&cur);
                let ghost prev = out@;
                out.push(w);
                proof {
                    assert(views_of(out@) =~= views_of(prev).push(w@));
                }
            }
            cur = Vec::new();
        }
        i = i + 1;
    }
    proof {
        assert(cs@.take(i as int) =~= cs@);
    }
    if keep_empty || cur.len() > 0 {
        let w = string_of(&cur);
        let ghost prev = out@;
        out.push(w);
        proof {
            assert(views_of(out@) =~= views_of(prev).push(w@));
        }
    }
    out
}

/// Splits a paragraph at every non-alphanumeric character, keeping the empty
/// pieces between adjacent separators.
pub fn get_words(paragraph: &str) -> (r: Vec<String>)
    ensures
        views_of(r@) == pieces(paragraph@),
{
    let cs = chars_of(paragraph);
    split_pieces(&cs, true)
}

/// The maximal alphanumeric runs of a paragraph, in order; no piece is empty.
pub fn get_searchable_words(paragraph: &String) -> (r: Vec<String>)
    ensures
        views_of(r@) == words(paragraph@),
{
    let cs = chars_of(paragraph.as_str());
    split_pieces(&cs, false)
}

/// The tokens of a text: lowercases it and keeps its maximal alphanumeric
/// runs, in order. No token is empty.
pub fn tokenize(text: &str) -> (r: Vec<String>)
    ensures
        views_of(r@) == tokens(text@),
        forall|i: int| 0 <= i < r@.len() ==> is_word(#[trigger] r@[i]@),
{
    let lower = lowercase(text);
    let cs = chars_of(lower.as_str());
    let r = split_pieces(&cs, false);
    proof {
        lemma_words_are_valid(lower@);
        assert forall|i: int| 0 <= i < r@.len() implies is_word(#[trigger] r@[i]@) by {
            assert(views_of(r@)[i] == r@[i]@);
        }
    }
    r
}


/// The decimal digit of `d`, for `d < 10`.
pub open spec fn digit_char(d: nat) -> char {
    if d == 0 { '0' }
    else if d == 1 { '1' }
    else if d == 2 { '2' }
    else if d == 3 { '3' }
    else if d == 4 { '4' }
    else if d == 5 { '5' }
    else if d == 6 { '6' }
    else if d == 7 { '7' }
    else if d == 8 { '8' }
    else { '9' }
}

/// The decimal digits of `n`, most significant first, without leading zeros.
pub open spec fn digits(n: nat) -> Seq<char>
    decreases n,
{
    if n < 10 {
        seq![digit_char(n)]
    } else {
        digits(n / 10).push(digit_char(n % 10))
    }
}

/// The decimal text of `n`: its digits, after a minus sign when negative.
pub open spec fn decimal_text(n: int) -> Seq<char> {
    if n < 0 {
        seq!['-'] + digits((-n) as nat)
    } else {
        digits(n as nat)
    }
}

fn digit(d: u64) -> (c: char)
    requires
        d < 10,
    ensures
        c == digit_char(d as nat),
{
    if d == 0 { '0' }
    else if d == 1 { '1' }
    else if d == 2 { '2' }
    else if d == 3 { '3' }
    else if d == 4 { '4' }
    else if d == 5 { '5' }
    else if d == 6 { '6' }
    else if d == 7 { '7' }
    else if d == 8 { '8' }
    else { '9' }
}

fn push_digits(out: &mut Vec<char>, n: u64)
    ensures
        final(out)@ == old(out)@ + digits(n as nat),
    decreases n,
{
    if n >= 10 {
        push_digits(out, n / 10);
    }
    let c = digit(n % 10);
    let ghost mid = out@;
    out.push(c);
    proof {
        if n >= 10 {
            assert(out@ =~= old(out)@ + digits(n as nat));
        } else {
            assert(mid == old(out)@);
            assert(out@ =~= old(out)@ + digits(n as nat));
        }
    }
}

/// The decimal text of an unsigned number.
pub fn decimal_u64(n: u64) -> (r: String)
    ensures
        r@ == decimal_text(n as int),
{
    let mut cs: Vec<char> = Vec::new();
    push_digits(&mut cs, n);
    proof {
        assert(cs@ =~= digits(n as nat));
    }
    string_of(&cs)
}

/// The decimal text of a signed number.
pub fn decimal_i64(n: i64) -> (r: String)
    ensures
        r@ == decimal_text(n as int),
{
    let mut cs: Vec<char> = Vec::new();
    if n < 0 {
        cs.push('-');
        let m: u64 = ((-(n + 1)) as u64) + 1;
        push_digits(&mut cs, m);
        proof {
            assert(cs@ =~= seq!['-'] + digits((-n) as nat));
        }
    } else {
        push_digits(&mut cs, n as u64);
        proof {
            assert(cs@ =~= digits(n as nat));
        }
    }
    string_of(&cs)
}

/// `s` with every `target` character replaced by `with`.
pub open spec fn replaced(s: Seq<char>, target: char, with: Seq<char>) -> Seq<char>
    decreases s.len(),
{
    if s.len() == 0 {
        Seq::empty()
    } else {
        replaced(s.drop_last(), target, with) + if s.last() == target {
            with
        } else {
            seq![s.last()]
        }
    }
}

pub(crate) fn replace_char(s: &String, target: char, with: &Vec<char>) -> (r: String)
    ensures
        r@ == replaced(s@, target, with@),
{
    let cs = chars_of(s.as_str());
    let mut out: Vec<char> = Vec::new();
    let mut i: usize = 0;
    while i < cs.len()
        invariant
            i <= cs@.len(),
            cs@ == s@,
            out@ == replaced(cs@.take(i as int), target, with@),
        decreases cs@.len() - i,
    {
        proof {
            assert(cs@.take(i as int + 1).drop_last() =~= cs@.take(i as int));
        }
        if cs[i] == target {
            let mut j: usize = 0;
            let ghost base = out@;
            while j < with.len()
                invariant
                    j <= with@.len(),
                    out@ == base + with@.take(j as int),
                decreases with@.len() - j,
            {
                out.push(with[j]);
                j = j + 1;
                proof {
                    assert(out@ =~= base + with@.take(j as int));
                }
            }
            proof {
                assert(with@.take(j as int) =~= with@);
            }
        } else {
            let ghost base = out@;
            out.push(cs[i]);
            proof {
                assert(out@ =~= base + seq![cs@[i as int]]);
            }
        }
        i = i + 1;
    }
    proof {
        assert(cs@.take(i as int) =~= cs@);
    }
    string_of(&out)
}

/// Escapes single quotes with a backslash.
pub fn escape_single_quote(s: &String) -> (r: String)
    ensures
        r@ == replaced(s@, '\'', seq!['\\', '\'']),
{
    let with = vec!['\\', '\''];
    proof {
        assert(with@ =~= seq!['\\', '\'']);
    }
    replace_char(s, '\'', &with)
}

/// Escapes double quotes with a backslash.
pub fn escape_double_quote(s: &String) -> (r: String)
    ensures
        r@ == replaced(s@, '"', seq!['\\', '"']),
{
    let with = vec!['\\', '"'];
    proof {
        assert(with@ =~= seq!['\\', '"']);
    }
    replace_char(s, '"', &with)
}

/// Writes line breaks as the two characters `\n`.
pub fn escape_new_line(s: &String) -> (r: String)
    ensures
        r@ == replaced(s@, '\n', seq!['\\', 'n']),
{
    let with = vec!['\\', 'n'];
    proof {
        assert(with@ =~= seq!['\\', 'n']);
    }
    replace_char(s, '\n', &with)
}

/// Writes line breaks as `<br>`.
pub fn escape_new_line_with_br(s: &String) -> (r: String)
    ensures
        r@ == replaced(s@, '\n', seq!['<', 'b', 'r', '>']),
{
    let with = vec!['<', 'b', 'r', '>'];
    proof {
        assert(with@ =~= seq!['<', 'b', 'r', '>']);
    }
    replace_char(s, '\n', &with)
}

/// `a` followed by `b`.
pub fn concat(a: &str, b: &str) -> (r: String)
    ensures
        r@ == a@ + b@,
{
    let mut r = a.to_owned();
    r.append(b);
    r
}


/// What `char::is_whitespace` answers for a character (Unicode `White_Space`).
pub uninterp spec fn is_space(c: char) -> bool;

/// What `slug::slugify` returns for a string.
pub uninterp spec fn slug_of(s: Seq<char>) -> Seq<char>;

/// Relies on `char::is_whitespace`: its answer depends on the character alone.
#[verifier::external_body]
fn char_is_whitespace(c: char) -> (r: bool)
    ensures
        r == is_space(c),
{
    c.is_whitespace()
}

/// Relies on `slug::slugify`: the result depends on the text alone.
#[verifier::external_body]
fn slug_text(s: &str) -> (r: String)
    ensures
        r@ == slug_of(s@),
{
    slug::slugify(s)
}

/// The characters a slug is made from: alphanumeric ones and white space.
pub open spec fn keeps_for_slug(c: char) -> bool {
    is_alnum(c) || is_space(c)
}

/// An ASCII letter or digit, or a dash.
pub open spec fn is_ascii_slug_char(c: char) -> bool {
    ('a' <= c <= 'z') || ('A' <= c <= 'Z') || ('0' <= c <= '9') || c == '-'
}

/// The longest slug.
pub const MAX_SLUG_LEN: usize = 50;

/// The slug of a text: its alphanumeric and white-space characters, slugged,
/// cut to `MAX_SLUG_LEN` characters.
pub open spec fn slug_for(s: Seq<char>) -> Seq<char> {
    let kept = slug_of(s.filter(|c: char| keeps_for_slug(c))).filter(|c: char| is_ascii_slug_char(c));
    if kept.len() <= MAX_SLUG_LEN {
        kept
    } else {
        kept.take(MAX_SLUG_LEN as int)
    }
}

/// A URL-safe slug of a text, at most `MAX_SLUG_LEN` characters long.
pub fn slugify(s: &String) -> (r: String)
    ensures
        r@ == slug_for(s@),
        r@.len() <= MAX_SLUG_LEN,
{
    let cs = chars_of(s.as_str());
    let ghost keep = |c: char| keeps_for_slug(c);
    let mut kept: Vec<char> = Vec::new();
    let mut i: usize = 0;
    while i < cs.len()
        invariant
            i <= cs@.len(),
            cs@ == s@,
            keep == (|c: char| keeps_for_slug(c)),
            kept@ == cs@.take(i as int).filter(keep),
        decreases cs@.len() - i,
    {
        let c = cs[i];
        proof {
            assert(cs@.take(i as int + 1) =~= cs@.take(i as int).push(c));
            cs@.take(i as int).lemma_filter_push(c, keep);
        }
        if char_is_alphanumeric(c) || char_is_whitespace(c) {
            kept.push(c);
        }
        i = i + 1;
    }
    proof {
        assert(cs@.take(i as int) =~= cs@);
    }
    let kept_text = string_of(&kept);
    let slugged = slug_text(kept_text.as_str());
    let sc = chars_of(slugged.as_str());
    let ghost ascii = |c: char| is_ascii_slug_char(c);
    let mut out: Vec<char> = Vec::new();
    let mut j: usize = 0;
    while j < sc.len()
        invariant
            j <= sc@.len(),
            ascii == (|c: char| is_ascii_slug_char(c)),
            out@ == sc@.take(j as int).filter(ascii),
        decreases sc@.len() - j,
    {
        let c = sc[j];
        proof {
            assert(sc@.take(j as int + 1) =~= sc@.take(j as int).push(c));
            sc@.take(j as int).lemma_filter_push(c, ascii);
        }
        if ('a' <= c && c <= 'z') || ('A' <= c && c <= 'Z') || ('0' <= c && c <= '9') || c == '-' {
            out.push(c);
        }
        j = j + 1;
    }
    proof {
        assert(sc@.take(j as int) =~= sc@);
    }
    if out.len() > MAX_SLUG_LEN {
        out.truncate(MAX_SLUG_LEN);
    }
    string_of(&out)
}

} // verus!
