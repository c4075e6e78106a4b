use cargo_liner::version::MAX_VERSION_TEXT;
use cargo_liner::Version;

fn version(text: &str) -> Version {
    Version::parse(text).unwrap()
}

#[test]
fn parse_reads_the_three_numbers() {
    let v = version("1.2.3");
    assert_eq!(v.major(), 1);
    assert_eq!(v.minor(), 2);
    assert_eq!(v.patch(), 3);
    assert_eq!(v.pre(), "");
    assert_eq!(v.build(), "");
}

#[test]
fn parse_reads_tag_and_metadata() {
    let v = version("0.8.1-alpha.1+zstd.1.5.0");
    assert_eq!(v.major(), 0);
    assert_eq!(v.minor(), 8);
    assert_eq!(v.patch(), 1);
    assert_eq!(v.pre(), "alpha.1");
    assert_eq!(v.build(), "zstd.1.5.0");
}

#[test]
fn parse_reads_the_largest_numbers() {
    let v = version("18446744073709551615.0.18446744073709551615");
    assert_eq!(v.major(), u64::MAX);
    assert_eq!(v.minor(), 0);
    assert_eq!(v.patch(), u64::MAX);
}

#[test]
fn parse_refuses_what_is_no_version() {
    assert_eq!(Version::parse(""), None);
    assert_eq!(Version::parse("1.0"), None);
    assert_eq!(Version::parse("1.0.01"), None);
    assert_eq!(Version::parse("1.0.unknown"), None);
    assert_eq!(Version::parse("1.0.0-"), None);
    assert_eq!(Version::parse("1.0.0+"), None);
    assert_eq!(Version::parse("1.0.0-alpha_123"), None);
    assert_eq!(Version::parse("23456789999999999999.0.0"), None);
    assert_eq!(Version::parse(" 1.0.0"), None);
    assert_eq!(Version::parse("1.0.0 "), None);
    assert_eq!(Version::parse("^1.0.0"), None);
    assert_eq!(Version::parse("*"), None);
    assert_eq!(Version::parse("1.0.0-01"), None);
    assert_eq!(Version::parse("1.0.0-a..b"), None);
}

#[test]
fn parse_refuses_what_is_not_canonical() {
    for text in [
        "01.2.3", "1.02.3", "1.2.03", "+1.2.3", "-1.2.3", "1.2.3-", "1.2.3+", "1.2.3-+b", "1.2.3-a+",
        "1.2.3\n", "\t1.2.3", "1 .2.3", "1.2.3.4", "1..3", ".1.2.3", "1.2.3-a.", "1.2.3-.a",
        "1.2.3+a..b", "1.2.3-00", "v1.2.3", "1.2.3-α", "١.٢.٣", "1,2,3", "1.2.x", "0x1.2.3",
    ] {
        assert_eq!(Version::parse(text), None, "{:?}", text);
    }
}

#[test]
fn parse_reads_what_is_canonical() {
    for text in [
        "0.0.0", "0.0.0-0", "1.2.3-0a", "1.2.3-a-b.-.--", "1.2.3+001", "1.2.3+00.0-", "1.2.3-0+0",
        "1.2.3-rc.1.2.3", "1.2.3-A.Z", "9.9.9-9+9",
    ] {
        let v = version(text);
        assert_eq!(v.render(), text);
    }
}

#[test]
fn parse_reads_a_text_of_the_greatest_length() {
    let mut text = String::from("1.0.0+");
    while text.len() < MAX_VERSION_TEXT {
        text.push('a');
    }
    let v = Version::parse(&text).unwrap();
    assert_eq!(v.build().len(), MAX_VERSION_TEXT - 6);
    assert_eq!(v.render(), text);
    assert!(Version::new(1, 0, 0).precedes(&v));
}

#[test]
fn parse_refuses_a_text_that_is_too_long() {
    let mut text = String::from("1.0.0+");
    while text.len() <= MAX_VERSION_TEXT {
        text.push('a');
    }
    assert_eq!(text.len(), MAX_VERSION_TEXT + 1);
    assert_eq!(Version::parse(&text), None);
}

#[test]
fn new_has_no_tag_and_no_metadata() {
    let v = Version::new(4, 5, 6);
    assert_eq!(v.major(), 4);
    assert_eq!(v.minor(), 5);
    assert_eq!(v.patch(), 6);
    assert_eq!(v.pre(), "");
    assert_eq!(v.build(), "");
    assert_eq!(v, version("4.5.6"));
}

#[test]
fn render_gives_the_canonical_text() {
    assert_eq!(version("1.2.3-alpha.1+build.5").render(), "1.2.3-alpha.1+build.5");
    assert_eq!(version("1.2.3+build.5").render(), "1.2.3+build.5");
    assert_eq!(version("1.2.3-rc.0").render(), "1.2.3-rc.0");
    assert_eq!(Version::new(0, 10, 200).render(), "0.10.200");
    assert_eq!(Version::new(0, 0, 0).render(), "0.0.0");
    assert_eq!(
        Version::new(u64::MAX, 9, 10).render(),
        "18446744073709551615.9.10"
    );
}

#[test]
fn render_and_parse_undo_each_other() {
    for text in ["0.0.0", "1.0.119", "1.2.3-alpha", "1.2.3-0.x.7+meta-data.001", "10.20.30+b"] {
        let v = version(text);
        assert_eq!(v.render(), text);
        assert_eq!(Version::parse(&v.render()), Some(v));
    }
}

#[test]
fn equals_compares_all_five_parts() {
    assert!(version("1.2.3").equals(&Version::new(1, 2, 3)));
    assert!(!version("1.2.3").equals(&version("1.2.4")));
    assert!(!version("1.2.3").equals(&version("1.3.3")));
    assert!(!version("1.2.3").equals(&version("2.2.3")));
    assert!(!version("1.2.3").equals(&version("1.2.3-alpha")));
    assert!(!version("1.2.3").equals(&version("1.2.3+build")));
    assert!(version("1.2.3-a+b").equals(&version("1.2.3-a+b")));
}

#[test]
fn clone_keeps_the_version() {
    let v = version("3.1.4-beta.2+exp.sha.5114f85");
    assert_eq!(v.clone(), v);
    assert_eq!(v.clone().render(), "3.1.4-beta.2+exp.sha.5114f85");
}

#[test]
fn precedes_orders_the_numbers_numerically() {
    assert!(version("1.5.0").precedes(&version("1.19.0")));
    assert!(!version("1.19.0").precedes(&version("1.5.0")));
    assert!(version("1.9.9").precedes(&version("2.0.0")));
    assert!(version("1.2.9").precedes(&version("1.2.10")));
    assert!(version("0.9.0").precedes(&version("1.0.0")));
    assert!(!version("2.0.0").precedes(&version("1.99.99")));
}

#[test]
fn precedes_is_strict() {
    assert!(!version("1.0.0").precedes(&version("1.0.0")));
    assert!(!version("1.0.0-alpha").precedes(&version("1.0.0-alpha")));
    assert!(!version("1.0.0+b").precedes(&version("1.0.0+b")));
}

#[test]
fn precedes_puts_a_tagged_version_before_the_release() {
    assert!(version("1.0.0-alpha.1").precedes(&version("1.0.0")));
    assert!(!version("1.0.0").precedes(&version("1.0.0-alpha.1")));
    assert!(version("1.0.0").precedes(&version("1.0.1-alpha")));
}

#[test]
fn precedes_orders_the_tags() {
    let chain = [
        "1.0.0-alpha",
        "1.0.0-alpha.1",
        "1.0.0-alpha.beta",
        "1.0.0-beta",
        "1.0.0-beta.2",
        "1.0.0-beta.11",
        "1.0.0-rc.1",
        "1.0.0",
    ];
    for i in 0..chain.len() {
        for j in 0..chain.len() {
            assert_eq!(version(chain[i]).precedes(&version(chain[j])), i < j);
        }
    }
}

#[test]
fn precedes_orders_the_build_metadata_last() {
    let chain = ["1.20.0", "1.20.0+bc17664", "1.20.0+c144a98", "1.20.1-pre+a", "1.20.1-pre+b"];
    for i in 0..chain.len() {
        for j in 0..chain.len() {
            assert_eq!(version(chain[i]).precedes(&version(chain[j])), i < j);
        }
    }
}

#[test]
fn the_order_is_total() {
    let sample: Vec<Version> = [
        "0.0.0", "0.0.1", "0.1.0", "1.0.0", "1.0.0-0", "1.0.0-1", "1.0.0-10", "1.0.0-2", "1.0.0-a",
        "1.0.0-a.1", "1.0.0-a.a", "1.0.0-a-", "1.0.0-A", "1.0.0+0", "1.0.0+00", "1.0.0+1",
        "1.0.0+a", "1.0.0-a+0", "1.0.0-a+b", "1.0.1-a", "1.1.0", "2.0.0-rc.1", "2.0.0",
        "18446744073709551615.0.0",
    ]
    .iter()
    .map(|text| version(text))
    .collect();
    for a in &sample {
        for b in &sample {
            let before = a.precedes(b);
            let after = b.precedes(a);
            let same = a.equals(b);
            assert_eq!(
                [before, after, same].iter().filter(|held| **held).count(),
                1,
                "{:?} and {:?}",
                a,
                b
            );
            for c in &sample {
                if before && b.precedes(c) {
                    assert!(a.precedes(c), "{:?}, {:?} and {:?}", a, b, c);
                }
            }
        }
    }
}
