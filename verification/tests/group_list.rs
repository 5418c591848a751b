use stream_messages::group_list::{GroupFilter, GroupList};
use stream_messages::position::MessagePosition;

fn group(n: u8) -> Vec<u8> {
    vec![n, n]
}

fn sorted(mut filters: Vec<GroupFilter>) -> Vec<(Vec<u8>, Option<u64>)> {
    let mut pairs: Vec<(Vec<u8>, Option<u64>)> =
        filters.drain(..).map(|f| (f.group_id, f.id_cursor)).collect();
    pairs.sort();
    pairs
}

#[test]
fn given_groups_start_at_zero() {
    let list = GroupList::following(vec![group(1), group(2), group(1)]);
    let mut ids = list.group_ids();
    ids.sort();
    assert_eq!(ids, vec![group(1), group(2)]);
    assert_eq!(list.get(&group(1)), Some(MessagePosition::from(0)));
    assert_eq!(list.get(&group(3)), None);
    assert!(list.contains_key(&group(2)));
    assert!(!list.contains_key(&[2]));
}

#[test]
fn insert_puts_a_group_at_a_position() {
    let mut list = GroupList::new();
    list.insert(group(1), MessagePosition::from(5));
    list.insert(group(2), MessagePosition::from(6));
    list.insert(group(1), MessagePosition::from(1));
    assert_eq!(
        sorted(list.filters()),
        vec![(group(1), Some(1)), (group(2), Some(6))]
    );
}

#[test]
fn set_cursor_moves_known_groups_only() {
    let mut list = GroupList::following(vec![group(1), group(2)]);
    list.set_cursor(&group(2), 9);
    list.set_cursor(&group(3), 9);
    assert_eq!(
        sorted(list.filters()),
        vec![(group(1), Some(0)), (group(2), Some(9))]
    );
}
