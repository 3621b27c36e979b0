//! Components that a screen draws, one after the other. To draw a component
//! is to say in one line of text what appears.

use crate::numerals::{decimal_digits, decimal_text};
use vstd::prelude::*;
use vstd::string::StringExecFns;

verus! {

/// Something that can be drawn.
pub trait Draw {
    /// The line that drawing this component gives.
    spec fn drawing(&self) -> Seq<char>;

    /// Draws the component.
    fn draw(&self) -> (line: String)
        ensures
            line@ == self.drawing(),
    ;
}

/// What is on a screen, in the order in which it is drawn.
pub struct Screen {
    pub components: Vec<Box<dyn Draw>>,
}

impl Screen {
    /// Draws every component, the first one first.
    pub fn run(&self) -> (lines: Vec<String>)
        ensures
            lines@.len() == self.components@.len(),
            forall|i: int|
                0 <= i < lines@.len() ==> (#[trigger] lines@[i])@ == self.components@[i].drawing(),
    {
        let mut lines: Vec<String> = Vec::new();
        let mut next: usize = 0;
        while next < self.components.len()
            invariant
                next <= self.components@.len(),
                lines@.len() == next,
                forall|i: int|
                    0 <= i < lines@.len() ==> (#[trigger] lines@[i])@
                        == self.components@[i].drawing(),
            decreases self.components@.len() - next,
        {
            let line = self.components[next].draw();
            lines.push(line);
            next += 1;
        }
        lines
    }
}

/// The size of a component as text: width, the letter x, height.
pub open spec fn size_text(width: u32, height: u32) -> Seq<char> {
    decimal_digits(width as nat) + "x"@ + decimal_digits(height as nat)
}

/// A button with a label.
pub struct Button {
    pub width: u32,
    pub height: u32,
    pub label: String,
}

impl Draw for Button {
    open spec fn drawing(&self) -> Seq<char> {
        "绘制按钮: "@ + size_text(self.width, self.height) + ", 标签: "@ + self.label@
    }

    /// The button's size and its label.
    fn draw(&self) -> (line: String) {
        let mut line = "绘制按钮: ".to_owned();
        line.append(decimal_text(self.width).as_str());
        line.append("x");
        line.append(decimal_text(self.height).as_str());
        line.append(", 标签: ");
        line.append(self.label.as_str());
        assert(line@ =~= self.drawing());
        line
    }
}

/// A field for text, which shows a placeholder while it is empty.
pub struct TextField {
    pub width: u32,
    pub height: u32,
    pub placeholder: String,
}

impl Draw for TextField {
    open spec fn drawing(&self) -> Seq<char> {
        "绘制文本框: "@ + size_text(self.width, self.height) + ", 占位符: "@
            + self.placeholder@
    }

    /// The field's size and its placeholder.
    fn draw(&self) -> (line: String) {
        let mut line = "绘制文本框: ".to_owned();
        line.append(decimal_text(self.width).as_str());
        line.append("x");
        line.append(decimal_text(self.height).as_str());
        line.append(", 占位符: ");
        line.append(self.placeholder.as_str());
        assert(line@ =~= self.drawing());
        line
    }
}

} // verus!
