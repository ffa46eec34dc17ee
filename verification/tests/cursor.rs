use mario_story_dialog_decode::cursor::Cursor;

fn drain(data: &[u8]) -> Vec<u8> {
    let mut cursor = Cursor::new(data);
    let mut out = Vec::new();
    while let Some(b) = cursor.next() {
        out.push(b);
    }
    out
}

#[test]
fn one_full_group_and_one_partial() {
    assert_eq!(drain(&[1, 2, 3, 4, 5]), vec![4, 3, 2, 1, 5]);
}

#[test]
fn empty_buffer_yields_nothing() {
    assert_eq!(drain(&[]), Vec::<u8>::new());
}

#[test]
fn full_groups_reverse_in_place() {
    assert_eq!(
        drain(&[1, 2, 3, 4, 5, 6, 7, 8]),
        vec![4, 3, 2, 1, 8, 7, 6, 5]
    );
}

#[test]
fn short_partial_groups_reverse_too() {
    assert_eq!(drain(&[9]), vec![9]);
    assert_eq!(drain(&[9, 8]), vec![8, 9]);
    assert_eq!(drain(&[9, 8, 7]), vec![7, 8, 9]);
}

#[test]
fn length_is_preserved() {
    let data: Vec<u8> = (0..23).collect();
    assert_eq!(drain(&data).len(), data.len());
}
