use helix_db::utils::tqdm::tqdm;

#[test]
fn test_tqdm_creation() {
    let iter = 0..100;
    let tqdm = tqdm::new(iter, 100, None, None);
    assert_eq!(tqdm.total, 100);
    assert_eq!(tqdm.current, 0);
    assert_eq!(tqdm.width, 50);
}

#[test]
fn test_tqdm_iteration() {
    let iter = 0..3;
    let mut tqdm = tqdm::new(iter, 3, None, None);
    assert_eq!(tqdm.next(), Some(0));
    assert_eq!(tqdm.current, 1);
    assert_eq!(tqdm.next(), Some(1));
    assert_eq!(tqdm.current, 2);
    assert_eq!(tqdm.next(), Some(2));
    assert_eq!(tqdm.current, 3);
    assert_eq!(tqdm.next(), None);
}

#[test]
fn test_tqdm_complete() {
    let iter = 0..5;
    let mut tqdm = tqdm::new(iter, 5, None, None);
    let mut count = 0;
    while tqdm.next().is_some() {
        count += 1;
    }
    assert_eq!(count, 5);
    assert_eq!(tqdm.current, 5);
}

#[test]
fn test_tqdm_empty() {
    let iter: Vec<u32> = vec![];
    let mut tqdm = tqdm::new(iter.into_iter(), 0, None, None);
    assert_eq!(tqdm.next(), None);
    assert_eq!(tqdm.current, 1);
}
