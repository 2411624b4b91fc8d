use gorust::select_parse::{parse_select, CaseHead, CaseSyntax, SelectSyntaxError, Span};

fn text(input: &str, span: Span) -> &str {
    &input[span.start..span.end]
}

fn cases(input: &str) -> Vec<CaseSyntax> {
    parse_select(input.as_bytes()).expect("the input parses").cases
}

fn refusal(input: &str) -> SelectSyntaxError {
    match parse_select(input.as_bytes()) {
        Ok(_) => panic!("the input must be refused"),
        Err(e) => e,
    }
}

#[test]
fn empty_input_has_no_case() {
    assert!(cases("").is_empty());
    assert!(cases("  \n\t ").is_empty());
}

#[test]
fn expression_bodies_end_at_top_level_commas() {
    let input = "v <- c => f(a, b), default => x + 1";
    let cs = cases(input);
    assert_eq!(cs.len(), 2);
    assert_eq!(text(input, cs[0].body), "f(a, b)");
    assert_eq!(text(input, cs[1].body), "x + 1");
    assert_eq!(cs[1].head, CaseHead::Default);
}

#[test]
fn block_bodies_need_no_comma() {
    let input = "default => { a } v <- c => { b }";
    let cs = cases(input);
    assert_eq!(cs.len(), 2);
    assert_eq!(text(input, cs[0].body), "{ a }");
    assert_eq!(text(input, cs[1].body), "{ b }");
}

#[test]
fn literals_hide_brackets_commas_and_arrows() {
    let input = "v <- c => println!(\"a, b => {\"), w <- d => f('{', '\\'')";
    let cs = cases(input);
    assert_eq!(cs.len(), 2);
    assert_eq!(text(input, cs[0].body), "println!(\"a, b => {\")");
    assert_eq!(text(input, cs[1].body), "f('{', '\\'')");
}

#[test]
fn lifetimes_are_not_character_literals() {
    let input = "default => { let s: &'static str = \"x\"; }";
    let cs = cases(input);
    assert_eq!(cs.len(), 1);
    assert_eq!(text(input, cs[0].body), "{ let s: &'static str = \"x\"; }");
}

#[test]
fn receive_with_pattern_and_method_channel() {
    let input = "Some(x) <- self.inbox() => x";
    let cs = cases(input);
    match cs[0].head {
        CaseHead::Recv { pat, chan } => {
            assert_eq!(text(input, pat), "Some(x)");
            assert_eq!(text(input, chan), "self.inbox()");
        }
        _ => panic!("a receive case"),
    }
}

#[test]
fn send_takes_its_first_argument() {
    let input = "out.tx.send(a + 1, b) => ()";
    let cs = cases(input);
    match cs[0].head {
        CaseHead::Send { chan, value } => {
            assert_eq!(text(input, chan), "out.tx");
            assert_eq!(text(input, value), "a + 1");
        }
        _ => panic!("a send case"),
    }
}

#[test]
fn after_is_a_timeout() {
    let input = "After!( d ) => 0";
    let cs = cases(input);
    match cs[0].head {
        CaseHead::Timeout { duration } => assert_eq!(text(input, duration), "d"),
        _ => panic!("a timeout case"),
    }
}

#[test]
fn unbalanced_input_is_refused() {
    assert_eq!(refusal("v <- c => { x "), SelectSyntaxError::Unbalanced);
    assert_eq!(refusal("v <- c => x)"), SelectSyntaxError::Unbalanced);
    assert_eq!(refusal("v <- c => \"x"), SelectSyntaxError::Unbalanced);
}

#[test]
fn a_case_without_arrow_is_refused() {
    assert_eq!(refusal("v <- c { x }"), SelectSyntaxError::MissingArrow);
    assert_eq!(refusal("v <- c, default => x"), SelectSyntaxError::MissingArrow);
}

#[test]
fn a_case_without_body_is_refused() {
    assert_eq!(refusal("default =>"), SelectSyntaxError::EmptyBody);
    assert_eq!(refusal("default => , v <- c => x"), SelectSyntaxError::EmptyBody);
}

#[test]
fn default_takes_nothing_more() {
    assert_eq!(refusal("default x => y"), SelectSyntaxError::BadDefault);
}

#[test]
fn a_timeout_needs_one_bracketed_duration() {
    assert_eq!(refusal("timeout 5 => x"), SelectSyntaxError::BadTimeout);
    assert_eq!(refusal("timeout!() => x"), SelectSyntaxError::BadTimeout);
    assert_eq!(refusal("timeout!(a) b => x"), SelectSyntaxError::BadTimeout);
}

#[test]
fn send_needs_an_argument() {
    assert_eq!(refusal("ch.send() => x"), SelectSyntaxError::SendWithoutArgument);
}

#[test]
fn missing_parts_are_refused() {
    assert_eq!(refusal("<- ch => x"), SelectSyntaxError::EmptyPart);
    assert_eq!(refusal("v <- => x"), SelectSyntaxError::EmptyPart);
    assert_eq!(refusal(".send(1) => x"), SelectSyntaxError::EmptyPart);
}

#[test]
fn other_heads_are_refused() {
    assert_eq!(refusal("foo(1) => x"), SelectSyntaxError::UnknownCase);
    assert_eq!(refusal("ch.resend(1) => x"), SelectSyntaxError::UnknownCase);
}
