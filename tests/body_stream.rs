use ssr_learning::body::{BodyAssembler, Phase};
use ssr_learning::shell::{body_marker_bytes, split_shell, TemplateShell};

fn shell(text: &str) -> TemplateShell {
    split_shell(text.as_bytes(), &body_marker_bytes()).unwrap()
}

/// Drives an assembler to the end, feeding it `rendered` in order.
fn drive(shell: TemplateShell, rendered: &[&str]) -> Vec<Vec<u8>> {
    let mut assembler = BodyAssembler::new(shell);
    let mut pending = rendered.iter();
    let mut out = Vec::new();
    loop {
        let polled = if assembler.wants_render() {
            pending.next().map(|c| c.as_bytes().to_vec())
        } else {
            None
        };
        match assembler.next_chunk(polled) {
            Some(chunk) => out.push(chunk),
            None => break,
        }
    }
    out
}

#[test]
fn fallback_body_is_prefix_rendered_suffix() {
    let chunks = drive(shell("<html><body>MARK</body></html>"), &["<h1>", "My", "</h1>"]);
    let expected: Vec<Vec<u8>> = vec![
        b"<html><body>".to_vec(),
        b"<h1>".to_vec(),
        b"My".to_vec(),
        b"</h1>".to_vec(),
        b"MARK</body></html>".to_vec(),
    ];
    assert_eq!(chunks, expected);
    let body = chunks.concat();
    assert!(body.starts_with(b"<html><body>"));
    assert!(body.ends_with(b"</body></html>"));
    assert_eq!(body, b"<html><body><h1>My</h1>MARK</body></html>".to_vec());
}

#[test]
fn empty_render_gives_the_shell_back() {
    let chunks = drive(shell("<html><body></body></html>"), &[]);
    assert_eq!(chunks, vec![b"<html><body>".to_vec(), b"</body></html>".to_vec()]);
}

#[test]
fn phases_advance_in_order() {
    let mut a = BodyAssembler::new(shell("a<body>b"));
    assert_eq!(a.phase(), Phase::Prefix);
    assert!(!a.wants_render());
    assert_eq!(a.next_chunk(Some(b"ignored".to_vec())), Some(b"a<body>".to_vec()));
    assert_eq!(a.phase(), Phase::Render);
    assert!(a.wants_render());
    assert_eq!(a.next_chunk(Some(b"x".to_vec())), Some(b"x".to_vec()));
    assert_eq!(a.next_chunk(None), Some(b"b".to_vec()));
    assert_eq!(a.phase(), Phase::Done);
    assert!(a.is_done());
    assert_eq!(a.next_chunk(None), None);
    assert_eq!(a.next_chunk(Some(b"late".to_vec())), None);
}

#[test]
fn interleaved_bodies_stay_apart() {
    let base = shell("<html><body></body></html>");
    let mut bodies: Vec<BodyAssembler> = (0..100).map(|_| BodyAssembler::new(base.clone())).collect();
    let mut out: Vec<Vec<u8>> = vec![Vec::new(); 100];
    let mut fed = vec![0usize; 100];
    loop {
        let mut any = false;
        for (i, a) in bodies.iter_mut().enumerate() {
            let polled = if a.wants_render() && fed[i] < 3 {
                fed[i] += 1;
                Some(format!("[{}:{}]", i, fed[i]).into_bytes())
            } else {
                None
            };
            if let Some(chunk) = a.next_chunk(polled) {
                out[i].extend_from_slice(&chunk);
                any = true;
            }
        }
        if !any {
            break;
        }
    }
    for (i, body) in out.iter().enumerate() {
        let expected = format!("<html><body>[{i}:1][{i}:2][{i}:3]</body></html>");
        assert_eq!(body, &expected.into_bytes());
    }
}
