use kite_mux::frame::{RequestFrame, RequestPayload, Tagged};
use kite_mux::tag_store::Tagger;

#[test]
fn allocations_without_release_are_distinct() {
    let mut tagger = Tagger::new();
    let mut tags: Vec<u32> = Vec::new();
    for _ in 0..50 {
        let t = tagger.allocate().unwrap();
        assert!(tagger.is_live(t));
        tags.push(t);
    }
    for i in 0..tags.len() {
        for j in (i + 1)..tags.len() {
            assert_ne!(tags[i], tags[j]);
        }
    }
}

#[test]
fn released_tag_is_not_live_and_is_reused() {
    let mut tagger = Tagger::new();
    let t = tagger.allocate().unwrap();
    assert_eq!(t, 0);
    tagger.release(t);
    assert!(!tagger.is_live(t));
    assert!(tagger.is_empty());
    let u = tagger.allocate().unwrap();
    assert_eq!(u, t);
    assert!(tagger.is_live(u));
}

#[test]
fn freed_slot_is_reused_before_growing() {
    let mut tagger = Tagger::new();
    let a = tagger.allocate().unwrap();
    let b = tagger.allocate().unwrap();
    let c = tagger.allocate().unwrap();
    assert_eq!((a, b, c), (0, 1, 2));
    tagger.release(b);
    assert!(tagger.is_live(a));
    assert!(!tagger.is_live(b));
    assert!(tagger.is_live(c));
    assert_eq!(tagger.allocate(), Some(1));
    assert_eq!(tagger.allocate(), Some(3));
}

#[test]
fn assign_tag_writes_the_fresh_tag_into_the_request() {
    let mut tagger = Tagger::new();
    let mut first = Tagged::from(RequestFrame { payload: RequestPayload { body: vec![1] } });
    let mut second = Tagged::from(RequestFrame { payload: RequestPayload { body: vec![2] } });
    assert_eq!(tagger.assign_tag(&mut first), Some(0));
    assert_eq!(tagger.assign_tag(&mut second), Some(1));
    assert_eq!(first.tag, 0);
    assert_eq!(second.tag, 1);
    assert_eq!(second.v.payload.body, vec![2]);
}

#[test]
fn finish_tag_releases_and_returns_the_tag() {
    let mut tagger = Tagger::new();
    let mut req = Tagged::from(RequestFrame { payload: RequestPayload { body: vec![] } });
    tagger.assign_tag(&mut req).unwrap();
    tagger.assign_tag(&mut req).unwrap();
    assert_eq!(req.tag, 1);
    let response = req.retag(());
    assert_eq!(tagger.finish_tag(&response), 1);
    assert!(!tagger.is_live(1));
    assert!(tagger.is_live(0));
    assert!(!tagger.is_empty());
}

#[test]
fn new_tagger_has_nothing_live() {
    let tagger = Tagger::new();
    assert!(tagger.is_empty());
    assert!(!tagger.is_live(0));
}

#[test]
fn default_tagger_starts_at_tag_zero() {
    let mut tagger = Tagger::default();
    assert!(tagger.is_empty());
    assert_eq!(tagger.allocate(), Some(0));
}

#[test]
fn released_tags_come_back_last_freed_first() {
    let mut tagger = Tagger::default();
    let mut reqs: Vec<Tagged<()>> = vec![Tagged::from(()), Tagged::from(()), Tagged::from(())];
    for (i, r) in reqs.iter_mut().enumerate() {
        assert_eq!(tagger.assign_tag(r), Some(i as u32));
        assert_eq!(r.tag, i as u32);
    }
    assert_eq!(tagger.finish_tag(&Tagged::new((), 2)), 2);
    assert_eq!(tagger.finish_tag(&Tagged::new((), 1)), 1);
    assert!(tagger.is_live(0));
    assert_eq!(tagger.allocate(), Some(1));
    assert_eq!(tagger.allocate(), Some(2));
    assert_eq!(tagger.allocate(), Some(3));
}

#[test]
fn a_released_tag_stays_out_until_handed_out_again() {
    let mut tagger = Tagger::new();
    let a = tagger.allocate().unwrap();
    let b = tagger.allocate().unwrap();
    tagger.release(a);
    assert!(!tagger.is_live(a));
    tagger.release(b);
    assert!(!tagger.is_live(a));
    assert_eq!(tagger.allocate(), Some(b));
    assert!(!tagger.is_live(a));
    assert_eq!(tagger.allocate(), Some(a));
    assert!(tagger.is_live(a));
}
