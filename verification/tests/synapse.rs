use yuuka::synapse::embed::{fnv1a_64, HashNgramEmbedder, MODEL_VERSION};
use yuuka::synapse::ids::{same_scope, InsertOutcome, Scope, SynapseIds, MAX_PER_SCOPE};
use yuuka::synapse::records::circular_distance;

fn scope() -> Scope {
    Scope { user_id: "u1".to_owned(), bot_id: "system_default".to_owned(), guild_id: None }
}

fn guild_scope() -> Scope {
    Scope { user_id: "u1".to_owned(), bot_id: "system_default".to_owned(), guild_id: Some("g".to_owned()) }
}

#[test]
fn dim_zero_is_clamped_to_one() {
    let e = HashNgramEmbedder::new(0);
    assert_eq!(e.dim(), 1);
    assert_eq!(e.slot_counts("x").len(), 1);
}

#[test]
fn remove_deletes_across_scopes() {
    let mut idx = SynapseIds::new(3);
    idx.insert(scope(), 1);
    assert_eq!(idx.total(), 1);
    assert!(idx.remove(1));
    assert_eq!(idx.total(), 0);
    assert!(!idx.remove(1));
}

#[test]
fn fnv1a_known_values() {
    assert_eq!(fnv1a_64(b""), 0xcbf2_9ce4_8422_2325);
    assert_eq!(fnv1a_64(b"a"), 0xaf63_dc4c_8601_ec8c);
}

#[test]
fn slot_counts_are_deterministic_and_count_every_gram() {
    let e = HashNgramEmbedder::new(64);
    let a = e.slot_counts("好きな食べ物はカレーです");
    let b = e.slot_counts("好きな食べ物はカレーです");
    assert_eq!(a, b);
    assert_eq!(a.len(), 64);
    // 12 characters and 10 trigrams, each adding ±1 to one slot.
    let total: i128 = a.iter().map(|x| x.abs()).sum();
    assert!(total <= 22 && total % 2 == 0);
    assert_eq!(e.model_version(), MODEL_VERSION);
}

#[test]
fn slot_counts_fold_case() {
    let e = HashNgramEmbedder::new(32);
    assert_eq!(e.slot_counts("ABC"), e.slot_counts("abc"));
}

#[test]
fn insert_moves_an_id_between_scopes() {
    let mut idx = SynapseIds::new(8);
    assert_eq!(idx.insert(scope(), 7), InsertOutcome::Added);
    assert_eq!(idx.insert(scope(), 7), InsertOutcome::Replaced);
    assert_eq!(idx.insert(guild_scope(), 7), InsertOutcome::Added);
    assert_eq!(idx.total(), 1);
    assert!(idx.ids_in(&scope()).is_empty());
    assert_eq!(idx.ids_in(&guild_scope()), vec![7]);
}

#[test]
fn full_scope_evicts_its_smallest_id() {
    let mut idx = SynapseIds::new(8);
    for id in 0..MAX_PER_SCOPE as i64 {
        idx.insert(scope(), 10 + id);
    }
    assert_eq!(idx.total(), MAX_PER_SCOPE);
    assert_eq!(idx.insert(scope(), 1), InsertOutcome::Evicted(10));
    assert_eq!(idx.total(), MAX_PER_SCOPE);
    assert!(!idx.ids_in(&scope()).contains(&10));
    assert!(idx.ids_in(&scope()).contains(&1));
}

#[test]
fn scopes_differ_by_guild() {
    assert!(same_scope(&scope(), &scope()));
    assert!(!same_scope(&scope(), &guild_scope()));
}

#[test]
fn circular_distances() {
    assert_eq!(circular_distance(1, 23, 24), 2);
    assert_eq!(circular_distance(23, 1, 24), 2);
    assert_eq!(circular_distance(6, 18, 24), 12);
    assert_eq!(circular_distance(0, 3, 7), 3);
    assert_eq!(circular_distance(0, 4, 7), 3);
    assert_eq!(circular_distance(5, 5, 7), 0);
}

#[test]
fn counts_of_lowered_text_by_slot_and_sign() {
    // FNV-1a: "a" -> slot 0 of 4 and "b" -> slot 1, second bit clear (+1);
    // "c" -> slot 2 and "abc" -> slot 3, second bit set (-1).
    let e = HashNgramEmbedder::new(4);
    assert_eq!(e.counts_of_lowered("abc"), vec![1, 1, -1, -1]);
    assert_eq!(e.counts_of_lowered("ab"), vec![1, 1, 0, 0]);
    assert_eq!(HashNgramEmbedder::new(1).counts_of_lowered("ab"), vec![2]);
    assert_eq!(e.slot_counts("ABC"), e.counts_of_lowered("abc"));
}
