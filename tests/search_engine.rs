use job_search::account::{AccountType, CompactAccount};
use job_search::corrector::Corrector;
use job_search::database::DBOrderDirection;
use job_search::error::SearchError;
use job_search::post::Post;
use job_search::ranking::rank;
use job_search::scheduler::{
    plan_indexing, refresh_task, should_enqueue_refresh, JobGuard, RefreshGate,
};
use job_search::search::{build_query_variants, high_signal_field_list, SearchService};
use job_search::tag::CompactTag;
use job_search::task::{DBTask, Task, TaskName, TaskStatus, TaskType};
use job_search::task_queue::TaskQueue;
use job_search::ticks::{begin_indexing_tick, finish_indexing_tick, refresh_tick};
use job_search::word_store::{Field, WordOccurrence, WordStore};

fn post(id: u32, title: &str, description: &str, poster_id: u32, tag_ids: Vec<u32>) -> Post {
    Post {
        id,
        slug: format!("post_{}", id),
        title: title.to_string(),
        poster_id,
        short_description: String::new(),
        description: description.to_string(),
        tag_ids,
        is_confirmed: true,
        published_at: String::new(),
    }
}

fn company(id: u32, name: &str) -> CompactAccount {
    CompactAccount {
        id,
        slug: format!("company_{}", id),
        account_type: AccountType::Company { company_name: name.to_string() },
    }
}

fn service_with(posts: Vec<Post>, tags: Vec<CompactTag>, posters: Vec<CompactAccount>) -> SearchService {
    let mut service = SearchService::new();
    assert!(service.index_posts(&posts, &tags, &posters).is_ok());
    assert!(service.refresh_bk_tree().is_ok());
    service
}

fn words(ws: &[&str]) -> Vec<String> {
    ws.iter().map(|w| w.to_string()).collect()
}

#[test]
fn title_match_outranks_description_match() {
    let posts = vec![
        post(1, "Engineer", "", 9, vec![]),
        post(2, "Barista", "engineer wanted", 9, vec![]),
    ];
    let service = service_with(posts, vec![], vec![company(9, "Zq")]);
    assert_eq!(service.search_posts(&"engineer".to_string()).unwrap(), vec![1, 2]);
}

#[test]
fn typo_is_corrected_to_indexed_word() {
    let posts = vec![post(1, "Javascript developer", "", 9, vec![])];
    let service = service_with(posts, vec![], vec![company(9, "Zq")]);
    let corrector_query = "javascrpt".to_string();
    assert!(service.store().scored_aggregate(&words(&["javascrpt"])).is_empty());
    assert_eq!(
        service.query_variants(&corrector_query, 3)[1],
        words(&["javascript"])
    );
    assert_eq!(service.search_posts(&corrector_query).unwrap(), vec![1]);
}

#[test]
fn corrector_returns_closest_words_first() {
    let mut corrector = Corrector::new();
    let mut store = WordStore::new();
    let row = |w: &str, id: u32| WordOccurrence {
        word: w.to_string(),
        entity_type: "post".to_string(),
        entity_id: id,
        field: Field::PostTitle,
    };
    assert!(store.append(vec![row("dust", 2), row("rush", 1), row("javascript", 3)]).is_ok());
    corrector.refresh(&store, &high_signal_field_list());
    let found = corrector.correct(&"rusk".to_string(), 3);
    assert_eq!(found, vec![(1, "rush".to_string()), (2, "dust".to_string())]);
    assert_eq!(corrector.correct(&"javascrpt".to_string(), 3), vec![(1, "javascript".to_string())]);
    assert_eq!(corrector.correct(&"rusk".to_string(), 1), vec![(1, "rush".to_string())]);
    assert!(corrector.correct(&"zzzzzzzz".to_string(), 3).is_empty());
    // equally distant words come in word order, whatever the tree walk gives
    let mut ties = WordStore::new();
    assert!(ties.append(vec![row("cat", 1), row("bat", 2), row("hat", 3)]).is_ok());
    corrector.refresh(&ties, &high_signal_field_list());
    assert_eq!(
        corrector.correct(&"zat".to_string(), 2),
        vec![(1, "bat".to_string()), (1, "cat".to_string())]
    );
    // the tolerance counts UTF-8 bytes: "é" is 2 bytes, so 1 edit is allowed,
    // and "è" differs from it in one byte
    let mut wide = WordStore::new();
    assert!(wide.append(vec![row("è", 1)]).is_ok());
    corrector.refresh(&wide, &high_signal_field_list());
    assert_eq!(corrector.correct(&"é".to_string(), 3), vec![(1, "è".to_string())]);
}

#[test]
fn closer_correction_outweighs_farther_one() {
    let posts = vec![post(1, "rush", "", 9, vec![]), post(2, "dust", "", 9, vec![])];
    let service = service_with(posts, vec![], vec![company(9, "Qq")]);
    let variants = service.query_variants(&"rusk".to_string(), 3);
    assert_eq!(
        variants,
        vec![words(&["rusk"]), words(&["rush"]), words(&["dust"]), words(&["rusk"])]
    );
    assert_eq!(service.search_posts(&"rusk".to_string()).unwrap(), vec![1, 2]);
}

#[test]
fn indexing_twice_doubles_the_score() {
    let posts = vec![post(1, "Engineer", "", 9, vec![])];
    let posters = vec![company(9, "Zq")];
    let mut service = SearchService::new();
    assert!(service.index_posts(&posts, &vec![], &posters).is_ok());
    let once = service.store().scored_aggregate(&words(&["engineer"]));
    assert_eq!(once, vec![(1, 100)]);
    assert!(service.index_posts(&posts, &vec![], &posters).is_ok());
    let twice = service.store().scored_aggregate(&words(&["engineer"]));
    assert_eq!(twice, vec![(1, 200)]);
    assert_eq!(service.store().len(), 4);
}

#[test]
fn words_indexed_after_a_rebuild_wait_for_the_next() {
    let posters = vec![company(9, "Zq")];
    let mut service = service_with(vec![post(1, "Engineer", "", 9, vec![])], vec![], posters.clone());
    assert!(service.index_posts(&vec![post(2, "Kotlin", "", 9, vec![])], &vec![], &posters).is_ok());
    let query = "kotlim".to_string();
    assert_eq!(service.search_posts(&query).unwrap(), Vec::<u32>::new());
    assert!(service.refresh_bk_tree().is_ok());
    assert_eq!(service.search_posts(&query).unwrap(), vec![2]);
}

#[test]
fn empty_store_gives_empty_ranking() {
    let service = SearchService::new();
    assert_eq!(service.search_posts(&"engineer".to_string()).unwrap(), Vec::<u32>::new());
    assert_eq!(service.search_posts(&String::new()).unwrap(), Vec::<u32>::new());
    assert_eq!(rank(&WordStore::new(), &vec![words(&["a"])]), Vec::<u32>::new());
}

#[test]
fn first_refresh_tick_always_rebuilds() {
    let mut gate = RefreshGate::new();
    assert!(gate.should_refresh(0));
    gate.record_run();
    assert!(!gate.should_refresh(0));
    assert!(gate.should_refresh(2));
}

#[test]
fn only_one_concurrent_run_per_job_kind() {
    let mut guard = JobGuard::new();
    assert!(guard.try_start());
    assert!(!guard.try_start());
    guard.finish();
    assert!(guard.try_start());

    // another job kind has a guard of its own
    let mut other = JobGuard::new();
    assert!(other.try_start());
    assert!(!guard.try_start());
    other.finish();
    assert!(!guard.try_start());
}

#[test]
fn missing_tag_or_poster_fails_without_writing() {
    let mut service = SearchService::new();
    let posters = vec![company(9, "Zq")];
    let tagged = vec![post(1, "Engineer", "", 9, vec![7])];
    assert_eq!(service.index_posts(&tagged, &vec![], &posters), Err(SearchError::InternalError));
    assert_eq!(service.store().len(), 0);
    let orphan = vec![post(1, "Engineer", "", 8, vec![])];
    assert_eq!(service.index_posts(&orphan, &vec![], &posters), Err(SearchError::InternalError));
    assert_eq!(service.store().len(), 0);
}

#[test]
fn every_text_field_is_indexed_with_its_weight() {
    let tags = vec![CompactTag { id: 7, slug: "rust".to_string(), name: "Rust".to_string() }];
    let mut p = post(1, "Lead", "rust rust", 9, vec![7]);
    p.short_description = "Rust".to_string();
    let posters = vec![CompactAccount {
        id: 9,
        slug: "a".to_string(),
        account_type: AccountType::Individual {
            first_name: "Rust".to_string(),
            last_name: "Ace".to_string(),
        },
    }];
    let mut service = SearchService::new();
    assert!(service.index_posts(&vec![p], &tags, &posters).is_ok());
    // short description 25 + description 2 * 1 + tag 5 + poster 50
    assert_eq!(service.store().scored_aggregate(&words(&["rust"])), vec![(1, 82)]);
    let rows: Vec<(String, Field)> = service
        .store()
        .occurrences()
        .iter()
        .map(|o| (o.word.clone(), o.field))
        .collect();
    assert_eq!(rows[0], ("lead".to_string(), Field::PostTitle));
    assert_eq!(rows.len(), 7);
}

#[test]
fn distinct_words_keep_high_signal_fields_only() {
    let mut store = WordStore::new();
    let row = |w: &str, f: Field| WordOccurrence {
        word: w.to_string(),
        entity_type: "post".to_string(),
        entity_id: 1,
        field: f,
    };
    assert!(store
        .append(vec![
            row("a", Field::PostTitle),
            row("b", Field::PostDescription),
            row("a", Field::PostTagName),
            row("c", Field::PostPosterDisplayName),
        ])
        .is_ok());
    assert_eq!(store.distinct_words(&high_signal_field_list()), words(&["a", "c"]));
}

#[test]
fn variants_fall_back_to_the_token() {
    let toks = words(&["a", "b"]);
    let corrections = vec![vec![(1, "x".to_string()), (2, "y".to_string())], vec![]];
    let v = build_query_variants(&toks, &corrections, 3);
    assert_eq!(
        v,
        vec![words(&["a", "b"]), words(&["x", "b"]), words(&["y", "b"]), words(&["a", "b"])]
    );
}

#[test]
fn ranking_weighs_variants_by_position() {
    let mut store = WordStore::new();
    let row = |w: &str, id: u32, f: Field| WordOccurrence {
        word: w.to_string(),
        entity_type: "post".to_string(),
        entity_id: id,
        field: f,
    };
    assert!(store
        .append(vec![
            row("x", 1, Field::PostDescription),
            row("y", 2, Field::PostDescription),
            row("y", 2, Field::PostDescription),
        ])
        .is_ok());
    // entity 1: 2 * 1 = 2, entity 2: 1 * 2 = 2 and entity 3 absent
    let ranked = rank(&store, &vec![words(&["x"]), words(&["y"])]);
    assert_eq!(ranked.len(), 2);
    let ranked = rank(&store, &vec![words(&["y"]), words(&["x"])]);
    assert_eq!(ranked, vec![2, 1]);
}

#[test]
fn indexing_tick_plan_and_refresh_request() {
    let tasks = vec![
        Task {
            id: 5,
            name: TaskName::Indexing { model_name: "post".to_string(), model_id: 40 },
            task_type: TaskType::Automated,
            status: TaskStatus::Pending,
            created_at: String::new(),
            updated_at: String::new(),
        },
        Task {
            id: 6,
            name: TaskName::Indexing { model_name: "account".to_string(), model_id: 41 },
            task_type: TaskType::Automated,
            status: TaskStatus::Pending,
            created_at: String::new(),
            updated_at: String::new(),
        },
        Task {
            id: 7,
            name: TaskName::RefreshingBKTree,
            task_type: TaskType::Automated,
            status: TaskStatus::Pending,
            created_at: String::new(),
            updated_at: String::new(),
        },
    ];
    let plan = plan_indexing(&tasks);
    assert_eq!(plan.task_ids, vec![5, 6, 7]);
    assert_eq!(plan.post_ids, vec![40]);
    assert!(should_enqueue_refresh(0, 0));
    assert!(!should_enqueue_refresh(1, 0));
    assert!(!should_enqueue_refresh(0, 1));
    let t = refresh_task();
    assert!(matches!(t.name, TaskName::RefreshingBKTree));
    assert!(matches!(t.status, TaskStatus::Pending));
}

fn indexing_item(model: &str, id: u32) -> DBTask {
    DBTask {
        name: TaskName::Indexing { model_name: model.to_string(), model_id: id },
        task_type: TaskType::Automated,
        status: TaskStatus::Pending,
    }
}

#[test]
fn queue_lists_newest_pending_first_and_completes_forward_only() {
    let mut queue = TaskQueue::new();
    assert_eq!(queue.create_one_task(indexing_item("post", 10)), Ok(1));
    assert_eq!(queue.create_one_task(indexing_item("account", 11)), Ok(2));
    assert_eq!(queue.create_one_task(indexing_item("post", 12)), Ok(3));
    let failed = DBTask {
        name: TaskName::Indexing { model_name: "post".to_string(), model_id: 13 },
        task_type: TaskType::Automated,
        status: TaskStatus::Failed { failure_reason: "gone".to_string() },
    };
    assert_eq!(queue.create_one_task(failed), Ok(4));
    assert_eq!(queue.get_many_pending_indexing_tasks(false, DBOrderDirection::DESC, 10, 0), vec![3, 2, 1]);
    assert_eq!(queue.get_many_pending_indexing_tasks(false, DBOrderDirection::DESC, 2, 0), vec![3, 2]);
    assert_eq!(queue.get_many_pending_indexing_tasks(false, DBOrderDirection::ASC, 10, 0), vec![1, 2, 3]);
    assert_eq!(queue.get_many_pending_indexing_tasks(false, DBOrderDirection::ASC, 1, 1), vec![2]);
    assert_eq!(queue.get_many_pending_indexing_tasks(false, DBOrderDirection::DESC, 5, 1), vec![2, 1]);
    assert!(queue.get_many_pending_indexing_tasks(false, DBOrderDirection::DESC, 5, 3).is_empty());
    assert!(queue.get_many_pending_indexing_tasks(true, DBOrderDirection::DESC, 5, 0).is_empty());
    assert_eq!(queue.post_ids_of(&vec![3, 2, 1]), vec![12, 10]);
    queue.complete_many_tasks_by_ids(&vec![1, 4]);
    assert_eq!(queue.get_many_pending_indexing_tasks(false, DBOrderDirection::DESC, 10, 0), vec![3, 2]);
    assert_eq!(queue.count_pending(false), 2);
    assert_eq!(queue.count_pending(true), 0);
}

#[test]
fn indexing_tick_drains_queue_then_asks_for_refresh() {
    let mut queue = TaskQueue::new();
    for id in 1..=12u32 {
        assert!(queue.create_one_task(indexing_item("post", id)).is_ok());
    }
    let posters = vec![company(9, "Zq")];
    let mut service = SearchService::new();
    let plan = begin_indexing_tick(&queue);
    assert_eq!(plan.task_ids, vec![12, 11, 10, 9, 8, 7, 6, 5, 4, 3]);
    let posts: Vec<Post> = plan.post_ids.iter().map(|id| post(*id, "Engineer", "", 9, vec![])).collect();
    assert_eq!(
        finish_indexing_tick(&mut service, &mut queue, &plan.task_ids, &posts, &vec![], &posters),
        Ok(false)
    );
    let plan = begin_indexing_tick(&queue);
    assert_eq!(plan.task_ids, vec![2, 1]);
    let posts: Vec<Post> = plan.post_ids.iter().map(|id| post(*id, "Engineer", "", 9, vec![])).collect();
    assert_eq!(
        finish_indexing_tick(&mut service, &mut queue, &plan.task_ids, &posts, &vec![], &posters),
        Ok(true)
    );
    assert_eq!(queue.get_many_pending_indexing_tasks(true, DBOrderDirection::DESC, 10, 0), vec![13]);
    assert_eq!(service.store().len(), 24);
}

#[test]
fn failed_indexing_leaves_items_pending() {
    let mut queue = TaskQueue::new();
    assert!(queue.create_one_task(indexing_item("post", 1)).is_ok());
    let mut service = SearchService::new();
    let plan = begin_indexing_tick(&queue);
    let orphan = vec![post(1, "Engineer", "", 8, vec![])];
    assert_eq!(
        finish_indexing_tick(&mut service, &mut queue, &plan.task_ids, &orphan, &vec![], &vec![]),
        Err(SearchError::InternalError)
    );
    assert_eq!(queue.get_many_pending_indexing_tasks(false, DBOrderDirection::DESC, 10, 0), vec![1]);
    assert_eq!(service.store().len(), 0);
}

#[test]
fn refresh_tick_bootstraps_then_waits_for_items() {
    let mut service = SearchService::new();
    assert!(service.index_posts(&vec![post(1, "Engineer", "", 9, vec![])], &vec![], &vec![company(9, "Zq")]).is_ok());
    let mut queue = TaskQueue::new();
    let mut gate = RefreshGate::new();
    assert!(refresh_tick(&mut service, &mut queue, &mut gate));
    assert_eq!(service.search_posts(&"enginer".to_string()).unwrap(), vec![1]);
    assert!(!refresh_tick(&mut service, &mut queue, &mut gate));
    assert_eq!(queue.create_one_task(refresh_task()), Ok(1));
    assert!(refresh_tick(&mut service, &mut queue, &mut gate));
    assert_eq!(queue.count_pending(true), 0);
}
