use lp5521::Channel;

#[test]
fn union_has_both_atoms() {
    let atoms = [Channel::R, Channel::G, Channel::B];
    for x in atoms {
        for y in atoms {
            if x != y {
                assert!((x | y).has(x));
                assert!((x | y).has(y));
                assert!(x.union(y).has(x));
                assert!(!x.has(y));
            }
        }
        assert!(!Channel::NoChannel.has(x));
        assert!(x.has(x));
    }
}

#[test]
fn named_unions() {
    assert_eq!(Channel::R | Channel::G, Channel::RG);
    assert_eq!(Channel::R | Channel::B, Channel::RB);
    assert_eq!(Channel::G | Channel::B, Channel::GB);
    assert_eq!(Channel::RG | Channel::B, Channel::RGB);
}

#[test]
fn intersections() {
    assert_eq!(Channel::GB & Channel::R, Channel::NoChannel);
    assert_eq!(Channel::GB & Channel::G, Channel::G);
    assert_eq!(Channel::RGB.intersect(Channel::RB), Channel::RB);
}

#[test]
fn channel_from_mask() {
    assert_eq!(Channel::from(6u8), Channel::GB);
    assert_eq!(Channel::from(7u8), Channel::RGB);
    assert_eq!(Channel::from(0u8), Channel::NoChannel);
    assert_eq!(Channel::from(9u8), Channel::NoChannel);
    assert_eq!(Channel::GB.bits(), 6);
}
