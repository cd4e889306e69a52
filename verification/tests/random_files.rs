use fmvparse::boxes::{BoxRef, Mp4Box};
use fmvparse::error::Error;
use fmvparse::mp4::Mp4;
use fmvparse::parser::Parser;

struct Lcg(u64);

impl Lcg {
    fn next(&mut self) -> u32 {
        self.0 = self.0.wrapping_mul(6364136223846793005).wrapping_add(1442695040888963407);
        (self.0 >> 33) as u32
    }

    fn below(&mut self, n: u32) -> u32 {
        self.next() % n
    }
}

const CONTAINERS: [&str; 6] = ["moov", "trak", "edts", "mdia", "minf", "stbl"];
const LEAVES: [&str; 14] = [
    "ftyp", "mdat", "free", "skip", "wide", "mvhd", "tkhd", "elst", "mdhd", "hdlr", "stsd",
    "stts", "uuid", "zzzz",
];

fn boxed(tag: &str, body: &[u8]) -> Vec<u8> {
    let mut out = ((body.len() as u32) + 8).to_be_bytes().to_vec();
    out.extend_from_slice(tag.as_bytes());
    out.extend_from_slice(body);
    out
}

fn random_box(rng: &mut Lcg, depth: u32) -> Vec<u8> {
    let kind = rng.below(10);
    if kind < 4 && depth < 7 {
        let tag = CONTAINERS[rng.below(6) as usize];
        let mut body = Vec::new();
        for _ in 0..rng.below(4) {
            body.extend(random_box(rng, depth + 1));
        }
        boxed(tag, &body)
    } else if kind == 4 {
        let wide = rng.below(2) == 1;
        let count = rng.below(14);
        let mut body = vec![0, 0, 0, 0];
        body.extend_from_slice(&count.to_be_bytes());
        for _ in 0..count {
            if wide {
                let offset = ((rng.next() as u64) << 32) | rng.next() as u64;
                body.extend_from_slice(&offset.to_be_bytes());
            } else {
                body.extend_from_slice(&rng.next().to_be_bytes());
            }
        }
        for _ in 0..rng.below(3) {
            body.push(rng.next() as u8);
        }
        boxed(if wide { "co64" } else { "stco" }, &body)
    } else {
        let tag = LEAVES[rng.below(14) as usize];
        let body: Vec<u8> = (0..rng.below(24)).map(|_| rng.next() as u8).collect();
        boxed(tag, &body)
    }
}

fn random_file(rng: &mut Lcg) -> Vec<u8> {
    let mut data = Vec::new();
    for _ in 0..1 + rng.below(5) {
        data.extend(random_box(rng, 1));
    }
    data
}

fn drive(data: &[u8]) -> (Result<Mp4, Error>, u64) {
    let mut parser = Parser::new("f".to_string(), data.len() as u64);
    let mut last_end = 0;
    while let Some(request) = parser.request() {
        assert!(request.offset >= last_end, "reads go forward");
        last_end = request.offset + request.len as u64;
        assert!(last_end <= data.len() as u64, "reads stay inside the file");
        let from = request.offset as usize;
        parser = parser.feed(&data[from..from + request.len]);
    }
    (parser.finish(), last_end)
}

fn check_nesting(parent: &BoxRef<'_>) {
    assert!(parent.size() >= 8);
    assert_eq!(parent.end(), parent.start() + parent.size() as u64);
    if let Some(children) = parent.fields() {
        let mut total = 8;
        for (i, child) in children.iter().enumerate() {
            assert!(child.start() >= parent.start() + 8);
            assert!(child.end() <= parent.end());
            assert_eq!(child.level(), parent.level() + 1);
            for other in children[..i].iter() {
                assert!(child.end() <= other.start() || other.end() <= child.start());
            }
            total += child.size();
            check_nesting(child);
        }
        assert!(total <= parent.size());
    }
}

fn check_tree(mp4: &Mp4, data: &[u8]) {
    assert_eq!(mp4.size(), data.len() as u64);
    let top = mp4.fields();
    let mut total = 0;
    for (i, node) in top.iter().enumerate() {
        assert_eq!(node.level(), 1);
        assert!(node.end() <= mp4.size());
        for other in top[..i].iter() {
            assert!(node.end() <= other.start() || other.end() <= node.start());
        }
        // The header in the tree is the header in the file.
        let at = node.start() as usize;
        assert_eq!(&data[at..at + 4], (node.size() as u32).to_be_bytes());
        assert_eq!(&data[at + 4..at + 8], node.name().as_bytes());
        total += node.size() as u64;
        check_nesting(node);
    }
    assert!(total <= mp4.size());
}

#[test]
fn random_well_formed_files_decode_to_well_formed_trees() {
    let mut rng = Lcg(0x5eed);
    for _ in 0..300 {
        let data = random_file(&mut rng);
        let mp4 = Mp4::parse("f", &data).unwrap();
        check_tree(&mp4, &data);
        let (driven, _) = drive(&data);
        assert_eq!(format!("{:?}", driven.unwrap()), format!("{:?}", mp4));
        let again = Mp4::parse("f", &data).unwrap();
        assert_eq!(again.render(), mp4.render());
    }
}

#[test]
fn damaged_files_decode_or_fail_but_never_leave_half_a_tree() {
    let mut rng = Lcg(0xbad5eed);
    let mut failures = 0;
    for round in 0..600 {
        let mut data = random_file(&mut rng);
        if round % 3 == 0 {
            let keep = rng.below(data.len() as u32 + 1) as usize;
            data.truncate(keep);
        } else {
            for _ in 0..1 + rng.below(3) {
                let at = rng.below(data.len() as u32) as usize;
                data[at] = rng.next() as u8;
            }
        }
        let direct = Mp4::parse("f", &data);
        let (driven, _) = drive(&data);
        match (&direct, &driven) {
            (Ok(a), Ok(b)) => {
                check_tree(a, &data);
                assert_eq!(format!("{:?}", a), format!("{:?}", b));
            }
            (Err(a), Err(b)) => {
                failures += 1;
                assert_eq!(format!("{:?}", a), format!("{:?}", b));
                assert!(
                    a.is_unexpected_end()
                        || matches!(
                            a,
                            Error::TruncatedHeader
                                | Error::TruncatedBody
                                | Error::InvalidTag
                                | Error::UnrecognizedFile
                                | Error::NestingTooDeep
                        )
                );
            }
            _ => panic!("the two ways of decoding disagree"),
        }
    }
    assert!(failures > 100);
}

#[test]
fn payload_is_never_read() {
    let mut rng = Lcg(7);
    for _ in 0..50 {
        let mut data = boxed("ftyp", b"isomiso2");
        let payload: Vec<u8> = (0..2000 + rng.below(2000)).map(|_| rng.next() as u8).collect();
        data.extend(boxed("mdat", &payload));
        data.extend(random_box(&mut rng, 1));
        let mut parser = Parser::new("f".to_string(), data.len() as u64);
        let mut read = 0;
        while let Some(request) = parser.request() {
            let from = request.offset as usize;
            let end = request.offset + request.len as u64;
            assert!(
                end <= 24 || request.offset >= 24 + payload.len() as u64,
                "the payload was asked for"
            );
            read += request.len;
            parser = parser.feed(&data[from..from + request.len]);
        }
        assert!(parser.finish().is_ok());
        assert!(read <= data.len() - payload.len());
    }
}
