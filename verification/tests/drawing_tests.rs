use rust_tour::drawing::{Button, Draw, Screen, TextField};
use rust_tour::numerals::decimal_text;

#[test]
fn decimal_text_is_the_standard_numeral() {
    for n in [0u32, 1, 9, 10, 11, 99, 100, 101, 1234, 90_000, 1_000_000_007, u32::MAX - 1, u32::MAX]
    {
        assert_eq!(decimal_text(n), format!("{}", n));
    }
    assert_eq!(decimal_text(0), "0");
    assert_eq!(decimal_text(4_294_967_295), "4294967295");
}

#[test]
fn button_draws_size_and_label() {
    let button = Button { width: 50, height: 10, label: String::from("确定") };
    assert_eq!(button.draw(), "绘制按钮: 50x10, 标签: 确定");
}

#[test]
fn text_field_draws_size_and_placeholder() {
    let field = TextField { width: 75, height: 10, placeholder: String::from("请输入...") };
    assert_eq!(field.draw(), "绘制文本框: 75x10, 占位符: 请输入...");
}

#[test]
fn screen_draws_in_order() {
    let screen = Screen {
        components: vec![
            Box::new(Button { width: 50, height: 10, label: String::from("确定") }),
            Box::new(TextField { width: 75, height: 10, placeholder: String::from("请输入...") }),
            Box::new(Button { width: 0, height: 4_294_967_295, label: String::new() }),
        ],
    };
    assert_eq!(
        screen.run(),
        vec![
            "绘制按钮: 50x10, 标签: 确定",
            "绘制文本框: 75x10, 占位符: 请输入...",
            "绘制按钮: 0x4294967295, 标签: ",
        ]
    );
}

#[test]
fn empty_screen_draws_nothing() {
    let screen = Screen { components: Vec::new() };
    assert_eq!(screen.run(), Vec::<String>::new());
}
