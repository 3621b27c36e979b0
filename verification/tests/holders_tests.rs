use rust_tour::closures::make_adder;
use rust_tour::cursor::{Countdown, Iter};
use rust_tour::excerpt::{parse_context, Context, ImportantExcerpt, Parser, TextProcessor};
use rust_tour::holders::{
    first_element, Buffer, Container, MapValue, Marker, MyBox, Point, Point2, Wrapper,
};

#[test]
fn point_hands_out_its_first_coordinate() {
    let point = Point { x: 5, y: 10 };
    assert_eq!(*point.x(), 5);
    let mixed = Point2 { x: 5, y: "ten" };
    assert_eq!(mixed.x, 5);
    assert_eq!(mixed.y, "ten");
}

#[test]
fn first_element_of_an_array() {
    assert_eq!(*first_element(&[1, 2, 3]), 1);
    assert_eq!(*first_element(&["only"]), "only");
}

#[test]
fn container_maps_its_value() {
    let doubled = Container { value: 42 }.map(|x| x * 2);
    assert_eq!(doubled.value, 84);
    let same = Container { value: -1 }.map(|x| x);
    assert_eq!(same.value, -1);
}

#[test]
fn buffer_knows_its_capacity() {
    let buffer: Buffer<32> = Buffer::new();
    assert_eq!(buffer.capacity(), 32);
    let none: Buffer<0> = Buffer::new();
    assert_eq!(none.capacity(), 0);
}

#[test]
fn wrapper_and_box_give_their_value() {
    let unsized_value = Wrapper { value: "hello" };
    assert_eq!(unsized_value.value, "hello");
    let number = 5;
    let wrapper = Wrapper { value: &number };
    assert_eq!(*wrapper.get_value(), 5);
    let boxed = MyBox(5);
    assert_eq!(*boxed, 5);
    let _marker: Marker<u8> = Marker::new();
}

#[test]
fn adder_adds_what_it_was_made_with() {
    let x = 5;
    let add_five = make_adder(&x);
    assert_eq!(add_five(3), 8);
    assert_eq!(add_five(-5), 0);
}

#[test]
fn slice_cursor_hands_out_each_element_once() {
    let data = vec![1, 2, 3];
    let mut cursor = Iter { data: &data, index: 0 };
    assert_eq!(cursor.next(), Some(&1));
    assert_eq!(cursor.next(), Some(&2));
    assert_eq!(cursor.index, 2);
    assert_eq!(cursor.next(), Some(&3));
    assert_eq!(cursor.next(), None);
    assert_eq!(cursor.next(), None);
    assert_eq!(cursor.index, 3);
}

#[test]
fn slice_cursor_past_the_end_hands_out_nothing() {
    let data = [1u8];
    let mut cursor = Iter { data: &data, index: 5 };
    assert_eq!(cursor.next(), None);
    assert_eq!(cursor.index, 5);
}

#[test]
fn countdown_counts_down_to_one() {
    let mut countdown = Countdown { count: 3 };
    assert_eq!(countdown.next(), Some(3));
    assert_eq!(countdown.next(), Some(2));
    assert_eq!(countdown.next(), Some(1));
    assert_eq!(countdown.next(), None);
    assert_eq!(countdown.count, 0);
    let mut below = Countdown { count: -2 };
    assert_eq!(below.next(), None);
    assert_eq!(below.count, -2);
}

#[test]
fn excerpt_has_level_three_and_returns_its_part() {
    let excerpt = ImportantExcerpt { part: "hello" };
    assert_eq!(excerpt.level(), 3);
    let (line, part) = excerpt.announce_and_return_part("重要通知");
    assert_eq!(line, "注意! 重要通知");
    assert_eq!(part, "hello");
}

#[test]
fn text_processor_lends_its_text() {
    let processor = TextProcessor { text: String::from("hello world") };
    assert_eq!(processor.process(), "hello world");
}

#[test]
fn parser_reports_the_context_after_its_first_byte() {
    assert_eq!(parse_context(Context("hello")), Err("ello"));
    assert_eq!(parse_context(Context("h")), Err(""));
    let context = Context("a山");
    assert_eq!(Parser { context: &context }.parse(), Err("山"));
}
