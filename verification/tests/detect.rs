use whalenest::detect::{candidate_ports, detect_existing_dsh, detect_step, looks_like_dsh_response, probe_dsh_at_port, probe_request, read_log_tail, DetectStep};

#[test]
fn candidate_ports_put_preferred_first() {
    assert_eq!(candidate_ports(Some(3082)), vec![3082, 3080, 3081, 3083, 3084, 3085]);
    assert_eq!(candidate_ports(Some(9000)), vec![9000, 3080, 3081, 3082, 3083, 3084, 3085]);
    assert_eq!(candidate_ports(Some(0)), vec![3080, 3081, 3082, 3083, 3084, 3085]);
    assert_eq!(candidate_ports(None), vec![3080, 3081, 3082, 3083, 3084, 3085]);
}

#[test]
fn recognises_dsh_replies() {
    assert!(looks_like_dsh_response("HTTP/1.1 200 OK\r\n\r\n<script>window.__DSH_BOOT__=1</script>"));
    assert!(looks_like_dsh_response("HTTP/1.1 304 Not Modified\r\nX: DeepSeek\r\n"));
    assert!(looks_like_dsh_response("HTTP/1.0 200 OK\r\nContent-Type: text/html\r\n\r\n<!DOCTYPE html><p>x</p>"));
    assert!(!looks_like_dsh_response("HTTP/1.1 404 Not Found\r\n\r\ndsh"));
    assert!(!looks_like_dsh_response("HTTP/1.1 200 OK\r\nContent-Type: application/json\r\n\r\n{}"));
    assert_eq!(probe_dsh_at_port(3081, "HTTP/1.1 200 OK\r\n\r\ndsh").as_deref(), Some("http://127.0.0.1:3081"));
    assert_eq!(probe_request(3080), "GET / HTTP/1.1\r\nHost: 127.0.0.1:3080\r\nConnection: close\r\n\r\n");
}

#[test]
fn first_dsh_port_wins() {
    let ports = vec![3080, 3081, 3082];
    let replies = vec![None, Some("HTTP/1.1 200 OK\r\n\r\nnginx".to_string()), Some("HTTP/1.1 200 OK\r\n\r\ndsh".to_string())];
    assert_eq!(detect_existing_dsh(&ports, &replies), Some((3082, "http://127.0.0.1:3082".to_string())));
    assert_eq!(detect_existing_dsh(&ports, &vec![None, None, None]), None);
}

#[test]
fn log_tail_keeps_last_lines() {
    assert_eq!(read_log_tail("a\nb\r\nc\n", 2), "b\nc");
    assert_eq!(read_log_tail("a\nb", 5), "a\nb");
    assert_eq!(read_log_tail("", 3), "");
    assert_eq!(read_log_tail("x\n\ny\n", 40), "x\n\ny");
    assert_eq!(read_log_tail("a\nb", 0), "");
}

#[test]
fn probing_stops_at_the_first_dsh() {
    let ports = vec![3080, 3081, 3082];
    let dsh = || Some("HTTP/1.1 200 OK\r\n\r\ndsh".to_string());
    assert_eq!(detect_step(&ports, &vec![]), DetectStep::Probe(3080));
    assert_eq!(detect_step(&ports, &vec![None]), DetectStep::Probe(3081));
    assert_eq!(detect_step(&ports, &vec![None, dsh()]), DetectStep::Found(3081, "http://127.0.0.1:3081".to_string()));
    assert_eq!(detect_step(&ports, &vec![None, None, None]), DetectStep::NotFound);
    assert_eq!(detect_step(&vec![], &vec![]), DetectStep::NotFound);
    // the loop the app runs: 3080 answers as dsh, nothing else is probed
    let mut replies: Vec<Option<String>> = Vec::new();
    let mut probed = Vec::new();
    let found = loop {
        match detect_step(&ports, &replies) {
            DetectStep::Probe(p) => {
                probed.push(p);
                replies.push(if p == 3080 { dsh() } else { None });
            }
            DetectStep::Found(p, u) => break Some((p, u)),
            DetectStep::NotFound => break None,
        }
    };
    assert_eq!(probed, vec![3080]);
    assert_eq!(found, Some((3080, "http://127.0.0.1:3080".to_string())));
}
