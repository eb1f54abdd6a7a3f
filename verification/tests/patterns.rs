use titan_wipe::patterns::{
    dod_5220_22m_ece_passes, gutmann_35_passes, nist_clear_passes, random_single_passes,
    PassPattern,
};

#[test]
fn constant_fills_every_byte() {
    let mut buf = vec![1u8; 7];
    PassPattern::Constant(0xAA).fill_buffer(&mut buf);
    assert_eq!(buf, vec![0xAA; 7]);
}

#[test]
fn alternating_starts_with_its_first_byte() {
    let mut buf = vec![0u8; 5];
    PassPattern::Alternating(0x92, 0x49).fill_buffer(&mut buf);
    assert_eq!(buf, vec![0x92, 0x49, 0x92, 0x49, 0x92]);
}

#[test]
fn empty_buffers_stay_empty() {
    let mut buf: Vec<u8> = Vec::new();
    PassPattern::Constant(0xFF).fill_buffer(&mut buf);
    PassPattern::CryptographicRandom.fill_buffer(&mut buf);
    PassPattern::Alternating(1, 2).fill_buffer(&mut buf);
    assert!(buf.is_empty());
}

#[test]
fn random_fill_overwrites_the_buffer() {
    let mut first = vec![0u8; 4096];
    let mut second = vec![0u8; 4096];
    PassPattern::CryptographicRandom.fill_buffer(&mut first);
    PassPattern::CryptographicRandom.fill_buffer(&mut second);
    assert_eq!(first.len(), 4096);
    assert_ne!(first, vec![0u8; 4096]);
    assert_ne!(first, second);
}

#[test]
fn descriptions() {
    assert_eq!(PassPattern::Constant(0x0A).description(), "0x0A");
    assert_eq!(PassPattern::Constant(0xFF).description(), "0xFF");
    assert_eq!(PassPattern::CryptographicRandom.description(), "CSPRNG Random");
    assert_eq!(PassPattern::Alternating(0x6D, 0xB6).description(), "Alt 0x6D/0xB6");
}

#[test]
fn dod_has_seven_passes_and_a_marker() {
    let r = PassPattern::CryptographicRandom;
    let c = |b: u8| PassPattern::Constant(b);
    assert_eq!(
        dod_5220_22m_ece_passes(),
        vec![c(0x00), c(0xFF), r, c(0x00), c(0xFF), r, c(0xAA)]
    );
}

#[test]
fn single_pass_lists() {
    assert_eq!(nist_clear_passes(), vec![PassPattern::Constant(0)]);
    assert_eq!(random_single_passes(), vec![PassPattern::CryptographicRandom]);
}

#[test]
fn gutmann_is_bookended_by_random() {
    let passes = gutmann_35_passes();
    assert_eq!(passes.len(), 35);
    for (i, pass) in passes.iter().enumerate() {
        assert_eq!(*pass == PassPattern::CryptographicRandom, i < 4 || i >= 31);
    }
    for i in 0..16usize {
        assert_eq!(passes[9 + i], PassPattern::Constant((17 * i) as u8));
    }
    assert_eq!(passes[4], PassPattern::Constant(0x55));
    assert_eq!(passes[8], PassPattern::Alternating(0x24, 0x92));
    assert_eq!(passes[30], PassPattern::Alternating(0xDB, 0x6D));
}
