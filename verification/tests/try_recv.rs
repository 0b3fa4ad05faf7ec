use concurrent_circbuf::TryRecv;

#[test]
fn map_applies_the_function_to_data() {
    assert_eq!(TryRecv::Data(20).map(|x| x * 2 + 2), TryRecv::Data(42));
    assert_eq!(TryRecv::Data("a").map(|s| s.len()), TryRecv::Data(1));
}

#[test]
fn map_keeps_empty_and_retry() {
    let e: TryRecv<u32> = TryRecv::Empty;
    let r: TryRecv<u32> = TryRecv::Retry;
    assert_eq!(e.map(|x| x + 1), TryRecv::Empty);
    assert_eq!(r.map(|x| x + 1), TryRecv::Retry);
}

#[test]
fn map_with_identity_and_composition() {
    let x: TryRecv<u32> = TryRecv::Data(5);
    assert_eq!(x.map(|v| v), x);
    assert_eq!(x.map(|v| v + 1).map(|v| v * 3), x.map(|v| (v + 1) * 3));
    let e: TryRecv<u32> = TryRecv::Empty;
    assert_eq!(e.map(|v| v + 1).map(|v| v * 3), e.map(|v| (v + 1) * 3));
}
