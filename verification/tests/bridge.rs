use agent_control::bridge::{
    escape_for_template, finish_eval, request_id, webview_script, EvalOutcome, PendingReplies,
};

#[test]
fn request_ids_are_sixteen_hex_digits() {
    assert_eq!(request_id(0), "0000000000000000");
    assert_eq!(request_id(0xdead_beef), "00000000deadbeef");
    assert_eq!(request_id(u64::MAX), "ffffffffffffffff");
    for x in [1u64, 255, 4096, 0x0123_4567_89ab_cdef] {
        assert_eq!(request_id(x), format!("{:016x}", x));
    }
}

#[test]
fn template_escaping_doubles_backslashes_and_escapes_backticks() {
    assert_eq!(escape_for_template("a`b\\c"), "a\\`b\\\\c");
    assert_eq!(escape_for_template("plain"), "plain");
    let s = "x\\`y";
    assert_eq!(escape_for_template(s), s.replace('\\', "\\\\").replace('`', "\\`"));
}

#[test]
fn script_wraps_expression_and_reports_under_id() {
    let id = request_id(42);
    let js = webview_script("document.title", &id);
    let expected = [
        "(async()=>{try{let r=await (eval(`",
        "document.title",
        "`));window.__TAURI_INTERNALS__.invoke('plugin:agent-control|agent_control_respond',{requestId:'",
        &id,
        "',data:JSON.stringify(r??null)})}catch(e){window.__TAURI_INTERNALS__.invoke('plugin:agent-control|agent_control_respond',{requestId:'",
        &id,
        "',data:JSON.stringify({__error:e.message??String(e)})})}})()",
    ]
    .join("");
    assert_eq!(js, expected);
}

#[test]
fn eval_outcomes_become_results() {
    assert_eq!(finish_eval(EvalOutcome::NoWebview, 5000), Err("No main webview found".to_string()));
    assert_eq!(
        finish_eval(EvalOutcome::EvalFailed("boom".to_string()), 5000),
        Err("eval error: boom".to_string())
    );
    assert_eq!(finish_eval(EvalOutcome::ChannelClosed, 5000), Err("Channel closed".to_string()));
    assert_eq!(finish_eval(EvalOutcome::TimedOut, 6000), Err("Timeout after 6000ms".to_string()));
    assert_eq!(
        finish_eval(EvalOutcome::Replied("\"My App\"".to_string()), 5000),
        Ok("\"My App\"".to_string())
    );
}

#[test]
fn reply_with_error_member_is_an_error() {
    assert_eq!(
        finish_eval(EvalOutcome::Replied("{\"__error\":\"x is not defined\"}".to_string()), 5000),
        Err("JS error: \"x is not defined\"".to_string())
    );
    assert_eq!(
        finish_eval(EvalOutcome::Replied("{\"__error\":{\"a\":1}}".to_string()), 5000),
        Err("JS error: {\"a\":1}".to_string())
    );
    assert_eq!(
        finish_eval(EvalOutcome::Replied("[\"__error\"]".to_string()), 5000),
        Ok("[\"__error\"]".to_string())
    );
    assert_eq!(
        finish_eval(EvalOutcome::Replied("not json".to_string()), 5000),
        Ok("not json".to_string())
    );
}

#[test]
fn reply_reaches_registered_waiter_once() {
    let mut table: PendingReplies<&'static str> = PendingReplies::new();
    assert_eq!(table.register(7, "first"), Ok(()));
    assert_eq!(table.register(9, "second"), Ok(()));
    assert_eq!(table.len(), 2);
    assert_eq!(table.claim(&request_id(7)), Some("first"));
    assert_eq!(table.claim(&request_id(7)), None);
    assert_eq!(table.len(), 1);
}

#[test]
fn unknown_or_malformed_ids_change_nothing() {
    let mut table: PendingReplies<u8> = PendingReplies::new();
    assert_eq!(table.register(0xab, 1), Ok(()));
    assert_eq!(table.claim("00000000000000AB"), None);
    assert_eq!(table.claim("ab"), None);
    assert_eq!(table.claim("00000000000000ac"), None);
    assert_eq!(table.len(), 1);
    assert_eq!(table.claim("00000000000000ab"), Some(1));
}

#[test]
fn register_refuses_a_taken_number_and_withdraw_removes() {
    let mut table: PendingReplies<u8> = PendingReplies::new();
    assert_eq!(table.register(1, 10), Ok(()));
    assert_eq!(table.register(1, 11), Err(11));
    assert_eq!(table.len(), 1);
    assert_eq!(table.withdraw(1), Some(10));
    assert_eq!(table.withdraw(1), None);
    assert_eq!(table.len(), 0);
}

#[test]
fn register_new_draws_a_fresh_number() {
    let mut table: PendingReplies<u8> = PendingReplies::new();
    let first = table.register_new(0);
    assert!(first.is_ok());
    assert_eq!(table.withdraw(first.unwrap()), Some(0));
    let a = loop {
        if let Ok(n) = table.register_new(1) {
            break n;
        }
    };
    let b = loop {
        if let Ok(n) = table.register_new(2) {
            break n;
        }
    };
    assert_ne!(a, b);
    assert_eq!(table.len(), 2);
    assert_eq!(table.claim(&request_id(a)), Some(1));
    assert_eq!(table.claim(&request_id(b)), Some(2));
}
