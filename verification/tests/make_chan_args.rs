use gorust::make_chan::{make_chan_args, ChanArgs};
use gorust::select_parse::Span;

fn text(input: &str, span: Span) -> &str {
    &input[span.start..span.end]
}

#[test]
fn a_type_alone_makes_an_unbuffered_channel() {
    let input = " i32 ";
    match make_chan_args(input.as_bytes()) {
        ChanArgs::Unbuffered { ty } => assert_eq!(text(input, ty), "i32"),
        _ => panic!("unbuffered"),
    }
}

#[test]
fn a_capacity_makes_a_buffered_channel() {
    let input = "String , 10";
    match make_chan_args(input.as_bytes()) {
        ChanArgs::Buffered { ty, size } => {
            assert_eq!(text(input, ty), "String");
            assert_eq!(text(input, size), "10");
        }
        _ => panic!("buffered"),
    }
}

#[test]
fn trailing_closing_brackets_are_cut_off() {
    let input = "u8, cap(n))";
    match make_chan_args(input.as_bytes()) {
        ChanArgs::Buffered { ty, size } => {
            assert_eq!(text(input, ty), "u8");
            assert_eq!(text(input, size), "cap(n");
        }
        _ => panic!("buffered"),
    }
}

#[test]
fn text_after_a_second_comma_is_ignored() {
    let input = "u8, 4, extra";
    match make_chan_args(input.as_bytes()) {
        ChanArgs::Buffered { ty, size } => {
            assert_eq!(text(input, ty), "u8");
            assert_eq!(text(input, size), "4");
        }
        _ => panic!("buffered"),
    }
}

#[test]
fn an_empty_capacity_is_an_empty_span() {
    let input = "u8,  ";
    match make_chan_args(input.as_bytes()) {
        ChanArgs::Buffered { ty, size } => {
            assert_eq!(text(input, ty), "u8");
            assert_eq!(text(input, size), "");
        }
        _ => panic!("buffered"),
    }
}
