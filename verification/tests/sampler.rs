use tracing_honeycomb::deterministic_sampler::{hash_bytes, sample, FNV_OFFSET_BASIS, FNV_PRIME};
use tracing_honeycomb::{Sampler, TraceId};

#[test]
fn hash_of_nothing_is_the_offset_basis() {
    assert_eq!(FNV_OFFSET_BASIS, 0xcbf2_9ce4_8422_2325);
    assert_eq!(FNV_PRIME, 0x100_0000_01b3);
    assert_eq!(hash_bytes(b""), 0xcbf2_9ce4_8422_2325);
}

#[test]
fn hash_matches_published_fnv1a_values() {
    assert_eq!(hash_bytes(b"a"), 0xaf63_dc4c_8601_ec8c);
    assert_eq!(hash_bytes(b"foobar"), 0x8594_4171_f739_67e8);
}

#[test]
fn hash_is_taken_over_the_utf8_bytes_of_the_identifier() {
    let id = TraceId::from_str("h\u{e9}llo");
    assert_eq!(id.as_bytes(), &[0x68, 0xc3, 0xa9, 0x6c, 0x6c, 0x6f]);
    assert_eq!(hash_bytes(id.as_bytes()), 0xa35f_f71f_9602_40e0);
}

#[test]
fn sample_keeps_multiples_of_the_rate() {
    // hash("A") = 0xaf63fc4c860222ec: even, a multiple of 3, last decimal digit 8.
    let a = TraceId::from_str("A");
    assert!(sample(2, &a));
    assert!(sample(3, &a));
    assert!(!sample(10, &a));
    // hash("B") = 0xaf63ff4c86022805: odd, a multiple of 3, last decimal digit 1.
    let b = TraceId::from_str("B");
    assert!(!sample(2, &b));
    assert!(sample(3, &b));
    assert!(!sample(10, &b));
    // hash("t3") = 0x08c7fd07b56a5ab0: a multiple of 10.
    assert!(sample(10, &TraceId::from_str("t3")));
}

#[test]
fn sample_at_rate_one_keeps_every_trace() {
    for text in ["", "A", "B", "trace-a", "trace-b", "t0", "t1", "t2", "t3", "t4"] {
        assert!(sample(1, &TraceId::from_str(text)), "on {:?}", text);
    }
}

#[test]
fn sample_is_the_same_however_often_it_is_asked() {
    for text in ["A", "B", "trace-a", "checkout-1"] {
        let id = TraceId::from_str(text);
        for rate in [1u32, 2, 3, 7, 100, u32::MAX] {
            let first = sample(rate, &id);
            for _ in 0..5 {
                assert_eq!(sample(rate, &id), first);
            }
            assert_eq!(sample(rate, &TraceId::new(text.to_string())), first);
        }
    }
}

#[test]
fn sampler_without_rate_keeps_nothing() {
    let sampler = Sampler::new(None);
    for text in ["", "A", "B", "t3"] {
        assert!(!sampler.keep(&TraceId::from_str(text)));
    }
}

#[test]
fn sampler_with_rate_decides_as_sample_does() {
    let sampler = Sampler::new(Some(2));
    assert!(sampler.keep(&TraceId::from_str("A")));
    assert!(!sampler.keep(&TraceId::from_str("B")));
    let all = Sampler::new(Some(1));
    assert!(all.keep(&TraceId::from_str("B")));
}

#[test]
fn trace_id_keeps_its_text() {
    let id = TraceId::from_str("3f2a");
    assert_eq!(id.as_str(), "3f2a");
    assert_eq!(id.to_string(), "3f2a");
    assert_eq!(id, TraceId::new("3f2a".to_string()));
    assert_eq!(TraceId::meta_field_name(), "trace-id");
}
