use combine::consumed::Consumed;
use combine::error::ParseError;
use combine::info::{Error, Info};
use combine::position::{BytePosition, SourcePosition};
use combine::positioner::Positioner;
use combine::state::State;
use combine::stream::{from_iter, Stream};

fn at(line: i32, column: i32) -> SourcePosition {
    SourcePosition { line: line, column: column }
}

#[test]
fn text_stream_yields_its_characters() {
    let state = State::new("abc");
    assert_eq!(state.position, at(1, 1));
    let (c, rest) = state.uncons().unwrap();
    assert_eq!(c, 'a');
    assert_eq!(rest, Consumed::Consumed(State { position: at(1, 2), input: "bc" }));
    let (c, rest) = rest.into_inner().uncons().unwrap();
    assert_eq!(c, 'b');
    assert_eq!(rest, Consumed::Consumed(State { position: at(1, 3), input: "c" }));
    let (c, rest) = rest.into_inner().uncons().unwrap();
    assert_eq!(c, 'c');
    assert_eq!(rest, Consumed::Consumed(State { position: at(1, 4), input: "" }));
    let end = rest.into_inner().uncons();
    assert_eq!(
        end,
        Err(Consumed::Empty(ParseError::from_errors(
            at(1, 4),
            vec![Error::Message(Info::Borrowed("End of input"))]
        )))
    );
}

#[test]
fn line_feed_starts_a_new_line() {
    let state = State::new("a\nb");
    let (c, rest) = state.uncons().unwrap();
    assert_eq!(c, 'a');
    let state = rest.into_inner();
    assert_eq!(state.position, at(1, 2));
    let (c, rest) = state.uncons().unwrap();
    assert_eq!(c, '\n');
    let state = rest.into_inner();
    assert_eq!(state.position, at(2, 1));
    let (c, rest) = state.uncons().unwrap();
    assert_eq!(c, 'b');
    assert_eq!(rest.into_inner().position, at(2, 2));
}

#[test]
fn byte_stream_counts_its_items() {
    let bytes: &[u8] = &[0x10, 0x20];
    let state = State::new(bytes);
    assert_eq!(state.position, BytePosition { position: 0 });
    let (b, rest) = state.uncons().unwrap();
    assert_eq!(b, 0x10);
    let (b, rest) = rest.into_inner().uncons().unwrap();
    assert_eq!(b, 0x20);
    let state = rest.into_inner();
    assert_eq!(state.position, BytePosition { position: 2 });
    let end = state.uncons();
    assert_eq!(
        end,
        Err(Consumed::Empty(ParseError::end_of_input(BytePosition { position: 2 })))
    );
    match end {
        Err(error) => {
            assert!(error.is_empty());
            assert_eq!(error.into_inner().errors, vec![Error::end_of_input()]);
        }
        Ok(_) => panic!("the stream had ended"),
    }
}

#[test]
fn text_stream_decodes_whole_scalars() {
    let (c, rest) = "\u{e9}\u{4e2d}z".uncons().unwrap();
    assert_eq!(c, '\u{e9}');
    assert_eq!(rest, "\u{4e2d}z");
    let (c, rest) = rest.uncons().unwrap();
    assert_eq!(c, '\u{4e2d}');
    assert_eq!(rest, "z");
    let (c, rest) = rest.uncons().unwrap();
    assert_eq!(c, 'z');
    assert_eq!(rest, "");
    assert_eq!(rest.uncons(), Err(Error::end_of_input()));
}

#[test]
fn slice_stream_yields_item_and_rest() {
    let bytes: &[u8] = &[7, 8, 9];
    let (b, rest) = bytes.uncons().unwrap();
    assert_eq!(b, 7);
    assert_eq!(rest, &[8u8, 9u8][..]);
    let empty: &[u8] = &[];
    assert_eq!(empty.uncons(), Err(Error::end_of_input()));
}

#[test]
fn uncons_is_the_same_on_a_clone() {
    let stream = "xy";
    let copy = stream.clone();
    assert_eq!(stream.uncons(), copy.uncons());
    let state = State::new("xy");
    let copy = state.as_empty();
    assert_eq!(copy, state);
    assert_eq!(state.clone().uncons(), copy.uncons());
}

#[test]
fn drawing_to_the_end_gives_back_the_items() {
    let text = "one\ntwo\n\nthree";
    let mut state = State::new(text);
    let mut drawn = String::new();
    loop {
        match state.uncons() {
            Ok((c, rest)) => {
                assert!(!rest.is_empty());
                drawn.push(c);
                state = rest.into_inner();
            }
            Err(error) => {
                assert!(error.is_empty());
                assert_eq!(error.into_inner().position, at(4, 6));
                break;
            }
        }
    }
    assert_eq!(drawn, text);
}

#[test]
fn position_after_text_counts_lines_and_columns() {
    let mut position = char::start();
    "ab\ncd\nefg".update(&mut position);
    assert_eq!(position, at(3, 4));
    let mut position = char::start();
    "ab\n".update(&mut position);
    assert_eq!(position, at(2, 1));
    let mut position = char::start();
    "".update(&mut position);
    assert_eq!(position, at(1, 1));
    let mut position = <&str as Positioner>::start();
    (&"xyz").update(&mut position);
    assert_eq!(position, at(1, 4));
}

#[test]
fn position_after_bytes_is_their_number() {
    let mut position = u8::start();
    let bytes: &[u8] = &[1, 2, 3, 4, 5];
    bytes.update(&mut position);
    assert_eq!(position, BytePosition { position: 5 });
    let mut position = <[u8] as Positioner>::start();
    7u8.update(&mut position);
    assert_eq!(position, BytePosition { position: 1 });
}

#[test]
fn update_moves_past_the_given_item() {
    let state = State::new("abc");
    let (c, rest) = state.update('\n', "c").unwrap();
    assert_eq!(c, '\n');
    assert_eq!(rest, Consumed::Consumed(State { position: at(2, 1), input: "c" }));
}

#[test]
fn iterator_stream_yields_what_the_iterator_does() {
    let stream = from_iter("hi".chars());
    let copy = stream.clone();
    let (c, rest) = stream.uncons().unwrap();
    assert_eq!(c, 'h');
    let (c, rest) = rest.uncons().unwrap();
    assert_eq!(c, 'i');
    match rest.uncons() {
        Err(e) => assert_eq!(e, Error::end_of_input()),
        Ok(_) => panic!("the iterator had ended"),
    }
    let state = State::new(copy);
    let (c, rest) = state.uncons().ok().unwrap();
    assert_eq!(c, 'h');
    assert_eq!(rest.into_inner().position, at(1, 2));
}

#[test]
fn iterator_stream_over_bytes_ends_with_end_of_input() {
    let state = State::new(from_iter(vec![1u8].into_iter()));
    let (b, rest) = state.uncons().ok().unwrap();
    assert_eq!(b, 1);
    let state = rest.into_inner();
    assert_eq!(state.position, BytePosition { position: 1 });
    match state.uncons() {
        Err(Consumed::Empty(error)) => {
            assert_eq!(error.position, BytePosition { position: 1 });
            assert_eq!(error.errors, vec![Error::end_of_input()]);
        }
        _ => panic!("the iterator had ended"),
    }
}

#[test]
fn positions_are_ordered_by_line_then_column() {
    assert!(at(1, 9) < at(2, 1));
    assert!(at(2, 1) < at(2, 2));
    assert!(at(3, 1) > at(2, 7));
    assert!(!(at(2, 2) < at(2, 2)));
    assert_eq!(at(2, 2).cmp(&at(2, 2)), std::cmp::Ordering::Equal);
    assert_eq!(at(1, 9).cmp(&at(2, 1)), std::cmp::Ordering::Less);
    assert_eq!(at(1, 9).partial_cmp(&at(1, 3)), Some(std::cmp::Ordering::Greater));
    assert!(BytePosition { position: 3 } < BytePosition { position: 4 });
    assert_eq!(
        BytePosition { position: 4 }.partial_cmp(&BytePosition { position: 4 }),
        Some(std::cmp::Ordering::Equal)
    );
    assert_eq!(BytePosition { position: 4 }.max(BytePosition { position: 1 }).position, 4);
}

#[test]
fn items_are_the_same_as_equality_says() {
    assert!('a'.same_as(&'a'));
    assert!(!'a'.same_as(&'b'));
    assert!(7u8.same_as(&7u8));
    assert!(!7u8.same_as(&8u8));
    assert!("abc".same_as("abc"));
    assert!(!"abc".same_as("abd"));
    assert!(!"abc".same_as("ab"));
    assert!((&"abc").same_as(&"abc"));
    let a: &[u8] = &[1, 2, 3];
    let b: &[u8] = &[1, 2, 3];
    let c: &[u8] = &[1, 2, 4];
    let d: &[u8] = &[1, 2];
    assert!(a.same_as(b));
    assert!(!a.same_as(c));
    assert!(!a.same_as(d));
    assert!(!d.same_as(a));
    let e: &[u8] = &[];
    assert!(e.same_as(e));
    assert!(a.same_as(&a));
}

#[test]
fn positions_stay_at_the_limit_of_their_integers() {
    let mut position = at(7, i32::MAX - 1);
    'a'.update(&mut position);
    assert_eq!(position, at(7, i32::MAX));
    'a'.update(&mut position);
    assert_eq!(position, at(7, i32::MAX));
    '\n'.update(&mut position);
    assert_eq!(position, at(8, 1));
    let mut position = at(i32::MAX, 5);
    '\n'.update(&mut position);
    assert_eq!(position, at(i32::MAX, 1));
    let mut position = at(i32::MAX, i32::MAX);
    "ab\nc".update(&mut position);
    assert_eq!(position, at(i32::MAX, 2));
    let mut position = BytePosition { position: usize::MAX - 1 };
    0u8.update(&mut position);
    assert_eq!(position, BytePosition { position: usize::MAX });
    0u8.update(&mut position);
    assert_eq!(position, BytePosition { position: usize::MAX });
    let state = State { position: at(1, i32::MAX), input: "z" };
    let (c, rest) = state.uncons().unwrap();
    assert_eq!(c, 'z');
    assert_eq!(rest, Consumed::Consumed(State { position: at(1, i32::MAX), input: "" }));
}

#[test]
fn negative_lines_and_columns_move_on_like_any_other() {
    let mut position = at(-2, -1);
    'a'.update(&mut position);
    assert_eq!(position, at(-2, 0));
    '\n'.update(&mut position);
    assert_eq!(position, at(-1, 1));
}
