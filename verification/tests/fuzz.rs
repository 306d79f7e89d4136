use sonic_oxide::osc::{encode, received, OscMessage, OscType};
use sonic_oxide::protocol::parse_incoming;

struct Xorshift64(u64);
impl Xorshift64 {
    fn next(&mut self) -> u64 {
        let mut x = self.0;
        x ^= x << 13;
        x ^= x >> 7;
        x ^= x << 17;
        self.0 = x;
        x
    }
    fn bytes(&mut self, len: usize) -> Vec<u8> {
        (0..len).map(|_| (self.next() & 0xff) as u8).collect()
    }
}

fn try_decode_and_parse(bytes: &[u8]) {
    for m in received(bytes) {
        let _ = parse_incoming(&m);
    }
}

#[test]
fn known_tricky_inputs_never_panic() {
    let cases: &[&[u8]] = &[
        b"",
        b"\0",
        b"not osc at all, just text",
        b"/",
        b"/\0\0\0,\0\0\0",
        b"/x\0\0,i\0\0\xff\xff\xff\xff",
        b"#bundle\0",
        b"/error\0\0,s\0\0",
    ];
    for case in cases {
        try_decode_and_parse(case);
    }
}

#[test]
fn random_byte_soup_never_panics() {
    let mut rng = Xorshift64(0xC0FFEE_A55D00D_u64 | 1);
    for _ in 0..20_000 {
        let len = (rng.next() % 128) as usize;
        let bytes = rng.bytes(len);
        try_decode_and_parse(&bytes);
    }
}

#[test]
fn mutated_real_messages_never_panic() {
    let seeds: Vec<Vec<u8>> = [
        OscMessage { addr: "/ack".into(), args: vec![OscType::String("id".into())] },
        OscMessage {
            addr: "/error".into(),
            args: vec![
                OscType::Int(1),
                OscType::String("boom".into()),
                OscType::String(String::new()),
            ],
        },
        OscMessage {
            addr: "/supersonic/drivers/list.reply".into(),
            args: vec![OscType::String("ALSA".into()), OscType::String("JACK".into())],
        },
        OscMessage {
            addr: "/supersonic/drivers/switch.reply".into(),
            args: vec![
                OscType::Int(1),
                OscType::String("JACK".into()),
                OscType::Float(48000.0f32.to_bits()),
                OscType::Int(256),
            ],
        },
        OscMessage { addr: "/midi/in-ports".into(), args: vec![OscType::String("p1".into())] },
        OscMessage {
            addr: "/incoming/osc".into(),
            args: vec![
                OscType::String("1/2".into()),
                OscType::String("/beat".into()),
                OscType::String("[1, 2]".into()),
            ],
        },
    ]
    .into_iter()
    .map(|m| encode(&m).unwrap())
    .collect();

    let mut rng = Xorshift64(0xBADC0DE_u64 | 1);
    for seed in &seeds {
        for _ in 0..2_000 {
            let mut mutated = seed.clone();
            let flips = 1 + (rng.next() % 4) as usize;
            for _ in 0..flips {
                if mutated.is_empty() {
                    break;
                }
                let i = (rng.next() as usize) % mutated.len();
                mutated[i] = (rng.next() & 0xff) as u8;
            }
            try_decode_and_parse(&mutated);
        }
    }
}

#[test]
fn oversized_and_truncated_length_prefixed_strings_never_panic() {
    let mut rng = Xorshift64(0x5EED_u64 | 1);
    for _ in 0..5_000 {
        let mut bytes = b"#bundle\0".to_vec();
        bytes.extend_from_slice(&[0u8; 8]);
        let claimed_len = rng.next() as i32;
        bytes.extend_from_slice(&claimed_len.to_be_bytes());
        let tail_len = (rng.next() % 32) as usize;
        bytes.extend(rng.bytes(tail_len));
        try_decode_and_parse(&bytes);
    }
}
