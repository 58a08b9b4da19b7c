//! The frame counter that numbers captured animation frames.
use simcore::frame_saver::FrameSaver;

#[test]
fn counting_starts_at_zero_and_advances() {
    let mut f = FrameSaver::new();
    assert_eq!(f.next_index(), Some(0));
    assert_eq!(f.next_index(), Some(1));
    assert_eq!(f.next_index(), Some(2));
    f.reset();
    assert_eq!(f.next_index(), Some(0));
}

#[test]
fn exhausted_counter_refuses() {
    let mut f = FrameSaver::new();
    f.index = i32::MAX;
    assert_eq!(f.next_index(), None);
    assert_eq!(f.index, i32::MAX);
}
