use html2kotlin::convert::convert;
use html2kotlin::dom::{read_document, FlatNode};

#[test]
fn parser_survives_small_inputs() {
    let alphabet: Vec<char> = "<<<>>>!!--//==\"\"'' \n\tabdiv class id ?".chars().collect();
    let mut state: u64 = 0x2545F4914F6CDD1D;
    let mut total = 0usize;
    for round in 0..50000 {
        let mut input = String::new();
        state ^= state << 13;
        state ^= state >> 7;
        state ^= state << 17;
        let len = (state % 24) as usize;
        for _ in 0..len {
            state ^= state << 13;
            state ^= state >> 7;
            state ^= state << 17;
            input.push(alphabet[(state % alphabet.len() as u64) as usize]);
        }
        let out = convert(&input);
        assert!(out.is_ok(), "round {} input {:?}", round, input);
        total += out.unwrap().len();
    }
    assert!(total > 0);
}

#[test]
fn parser_survives_all_short_inputs() {
    let alphabet: Vec<char> = "<>!-/=\"' a".chars().collect();
    let n = alphabet.len();
    for len in 0..=5usize {
        let count = n.pow(len as u32);
        for code in 0..count {
            let mut c = code;
            let mut input = String::new();
            for _ in 0..len {
                input.push(alphabet[c % n]);
                c /= n;
            }
            assert!(convert(&input).is_ok(), "input {:?}", input);
        }
    }
}

#[test]
fn parsed_children_follow_their_parent() {
    let alphabet: Vec<char> = "<>/!-= ap".chars().collect();
    let n = alphabet.len();
    let mut tags = 0usize;
    for len in 0..=5usize {
        for code in 0..n.pow(len as u32) {
            let mut c = code;
            let mut input = String::from("<p><a b=c>x<!-- y -->");
            for _ in 0..len {
                input.push(alphabet[c % n]);
                c /= n;
            }
            let document = read_document(&input).unwrap();
            let size = document.nodes.len();
            assert!(document.roots.iter().all(|&root| (root as usize) < size), "input {:?}", input);
            for (parent, node) in document.nodes.iter().enumerate() {
                if let FlatNode::Tag { children, .. } = node {
                    tags += 1;
                    assert!(
                        children.iter().all(|&child| parent < child as usize && (child as usize) < size),
                        "input {:?}",
                        input
                    );
                }
            }
        }
    }
    assert!(tags > 0);
}
