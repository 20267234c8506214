use ogc_cql2::qstring::QString;
use unicase::UniCase;
use unicode_normalization::UnicodeNormalization;

#[test]
fn test_display() {
    const S1: &str = "/chișinău/_";
    const S2: &str = "/CHIȘINĂU/c";
    const S3: &str = "/CHIȘINĂU/a";
    const S5: &str = "/chișinău/b";

    let s1 = QString::plain("chișinău");
    assert!(s1.is_plain());
    assert_eq!(s1.to_string(), S1);

    let s2 = QString::icase("CHIȘINĂU");
    assert!(s2.is_icase());
    assert_eq!(s2.to_string(), S2);

    let s3 = QString::iaccent("CHIȘINĂU");
    assert!(s3.is_iaccent());
    assert_eq!(s3.to_string(), S3);

    let s4 = s1.and_icase();
    assert!(s1.is_plain());
    assert!(!s4.is_plain());
    assert!(s4.is_icase());

    let s5 = s4.and_iaccent();
    assert_eq!(s5.to_string(), S5);
    assert!(s5.is_icase());
    assert!(s5.is_iaccent());
}

#[test]
fn qstring_test_equality() {
    let s1 = QString::plain("chisinau");
    let s2 = QString::icase("CHISINAU");
    let s3 = QString::iaccent("chișinău");
    let s4 = QString::iaccent("CHIȘINĂU").and_icase();
    let s5 = QString::plain("CHISINAU").and_iaccent();

    assert!(s1 == s2);
    assert!(s3 == s4);
    assert!(s4 == s5);

    // all together now...
    let s4 = s2.and_iaccent();
    let s5 = s3.and_icase();

    assert!(s1 == s3);
    assert!(s1 == s4);
    assert!(s1 == s5);

    // remain valid after same bit set multiple times...
    let s5 = s4.and_iaccent();
    assert_eq!(s2, s4);
    assert_eq!(s2, s5);
    assert_eq!(s4, s5);
    assert!(s5.is_icase());
    assert!(s5.is_iaccent());
}

#[test]
fn test_unaccent() {
    let slo = "chisinau";
    let shi = "CHISINAU";
    let aaaa = ["ẵ", "aͣ", "ą", "ǟ", "aₐ", "ắ"];
    let nota = ["ɑ", "Ⓐ", "ⓐ", "æ", "ǽ", "ⱥ", "ᶏ", "ₐ"];

    let iaccented = QString::unaccent("chișinău");
    assert_eq!(iaccented, slo);

    let iaccented = QString::unaccent("CHIȘINĂU");
    assert_eq!(iaccented, shi);

    // now test when LIKE wildcard characters are included...
    let iaccented = QString::unaccent("Chiș%");
    assert_eq!(iaccented, "Chis%");

    let iaccented = QString::unaccent("cHis%");
    assert_eq!(iaccented, "cHis%");

    // ...and when combined w/ icase...
    let a = QString::unaccent(&UniCase::new("chișinău%").to_folded_case());
    let b = UniCase::new(QString::unaccent("chișinău%")).to_folded_case();
    assert_eq!(a, b);

    // test 'a' combos...
    for c in aaaa.into_iter() {
        let a = QString::unaccent(c);
        assert!(a.starts_with('a'));
    }
    for c in nota.into_iter() {
        let a = QString::unaccent(c);
        assert!(!a.starts_with('a'));
    }
}

/// A small deterministic generator of pseudo-random numbers.
struct Lcg(u64);

impl Lcg {
    fn next(&mut self) -> u64 {
        self.0 = self.0.wrapping_mul(6364136223846793005).wrapping_add(1442695040888963407);
        self.0 >> 33
    }

    fn below(&mut self, n: u64) -> u64 {
        self.next() % n
    }
}

fn starts_with_foo(rng: &mut Lcg) -> String {
    const ALNUM: &[u8] = b"ABCDEFGHIJKLMNOPQRSTUVWXYZabcdefghijklmnopqrstuvwxyz0123456789";
    let size = 5 + rng.below(10) as usize;
    let s: String = (0..size)
        .map(|_| ALNUM[rng.below(ALNUM.len() as u64) as usize] as char)
        .collect();
    let hit = rng.below(4) == 0;
    if hit { format!("Foo{s}") } else { s }
}

#[test]
fn test_like_small() {
    let mut rng = Lcg(7);
    let pattern = QString::icase("foo%");
    for _ in 0..1000 {
        let s = starts_with_foo(&mut rng);
        if s.starts_with("Foo") {
            let input = QString::icase(&s);
            let result = QString::like(&input, &pattern);
            if !result {
                panic!("Ooops: was expecting '{s}' to succeed")
            }
        };
    }
}

#[test]
fn test_like_capital() {
    let mut rng = Lcg(11);
    let pattern = QString::icase("FOO%");
    for _ in 0..1000 {
        let s = starts_with_foo(&mut rng);
        if s.starts_with("Foo") {
            let input = QString::icase(&s);
            let result = QString::like(&input, &pattern);
            if !result {
                panic!("Ooops: was expecting '{s}' to succeed")
            }
        };
    }
}

#[test]
fn test_nfkd() {
    const S: &str = "ἄbc";

    let r1: String = S
        .chars()
        .map(|c| UnicodeNormalization::nfkd(c).nth(0).unwrap())
        .collect();
    assert_eq!(r1, "αbc");

    assert_eq!(QString::unaccent(S), r1);
}

#[test]
fn test_like_bench() {
    // random words, 5 to 10 characters long, from latin characters.
    fn random_latin_word(rng: &mut Lcg) -> String {
        let len = 5 + rng.below(5) as usize;
        (0..len)
            .map(|_| char::from_u32(0x41 + rng.below(0x24F - 0x41 + 1) as u32).unwrap())
            .collect()
    }

    let mut rng = Lcg(2025);
    const PATTERN: &str = "Ä%%";
    let pattern = QString::plain(PATTERN).and_iaccent().and_icase();
    for _ in 0..1000 {
        let raw = random_latin_word(&mut rng);
        let cooked = raw
            .nfd()
            .filter(|x| !unicode_normalization::char::is_combining_mark(*x))
            .nfc()
            .collect::<String>();
        let ricotta = UniCase::unicode(&cooked).to_folded_case();
        let expected = ricotta.starts_with('a');
        let input = QString::plain(&raw).and_icase().and_iaccent();
        let actual = QString::like(&input, &pattern);
        assert_eq!(actual, expected, "IA(IC({raw})) LIKE IC(IA({PATTERN}))");
    }
}

#[test]
fn test_like() {
    // plain input and pattern.  no wildcards...
    let input = QString::plain("hello");
    let pattern = QString::plain("h%o");
    let r1 = QString::like(&input, &pattern);
    assert!(r1);

    // case-insensitive input, plain pattern.  multi wildcard...
    let input = QString::icase("HELLO");
    let pattern = QString::plain("h%o");
    let r2 = QString::like(&input, &pattern);
    assert!(r2);
    let input = QString::icase("HELLODOLLY");
    let pattern = QString::plain("h%odo%y");
    let r2p = QString::like(&input, &pattern);
    assert!(r2p);

    // plain input, case-insensitive pattern.  single wildcard...
    let input = QString::plain("hello");
    let pattern = QString::icase("h__lo");
    let r3 = QString::like(&input, &pattern);
    assert!(r3);
    // multi wildcard...
    let pattern = QString::icase("h%lo");
    let r3p = QString::like(&input, &pattern);
    assert!(r3p);

    // plain input and pattern.  escaped multi wildcard...
    let input = QString::plain("hello");
    let pattern = QString::plain("h\\%o");
    let r4 = QString::like(&input, &pattern);
    assert!(!r4);

    let input = QString::plain("h%llo");
    let pattern = QString::plain("h\\%llo");
    let r5 = QString::like(&input, &pattern);
    assert!(r5);

    // empty input and multi wildcard pattern should match
    let input = QString::plain("");
    let pattern = QString::plain("%");
    let r6 = QString::like(&input, &pattern);
    assert!(r6);

    // non-empty input and empty pattern should fail
    let input = QString::plain("abc");
    let pattern = QString::plain("");
    let r7 = QString::like(&input, &pattern);
    assert!(!r7);

    // w/ unicode... case-insensitive input and no wildcards...
    let input = QString::icase("ß"); // small sharp s
    let pattern = QString::icase("ẞ"); // capital sharp s
    let u1 = QString::like(&input, &pattern);
    assert!(u1);

    let input = QString::icase("Σ");
    let pattern = QString::plain("σ");
    let u2 = QString::like(&input, &pattern);
    assert!(u2);

    // w/ unicode + wildcard...
    let input = QString::plain("こんにちは");
    let pattern = QString::plain("こ%は");
    let u4 = QString::like(&input, &pattern);
    assert!(u4);

    let pattern = QString::icase("こ_にちは");
    let u5 = QString::like(&input, &pattern);
    assert!(u5);
}
