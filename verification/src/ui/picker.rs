//! The choice of a directory to open a shell in.

use vstd::prelude::*;
use vstd::string::*;
use vstd::utf8::encode_utf8;

use crate::text::concat;
use crate::ui::area::{inside_frame, Area};
use crate::ui::paint::{bold_span, colored_style, Color, Span, SpanView, Style};

verus! {

/// The sixteen low bits of a number.
pub open spec fn low_16(n: int) -> int {
    n % 0x10000
}

/// The number of bytes of the longest label.
pub open spec fn longest(items: Seq<(String, String)>) -> int
    decreases items.len(),
{
    if items.len() == 0 {
        0
    } else {
        let n = encode_utf8(items.last().0@).len() as int;
        let rest = longest(items.drop_last());
        if n > rest {
            n
        } else {
            rest
        }
    }
}

/// The greater of two numbers.
pub open spec fn at_least(n: int, least: int) -> int {
    if n < least {
        least
    } else {
        n
    }
}

/// The lesser of two numbers.
pub open spec fn at_most(n: int, most: int) -> int {
    if n > most {
        most
    } else {
        n
    }
}

/// The width of the picker: that of the longest label with room around it, at least
/// twenty columns, and at most four less than the screen has.
pub open spec fn picker_width(items: Seq<(String, String)>, screen: Area) -> int {
    at_most(
        at_least(at_most(low_16(longest(items)) + 6, u16::MAX as int), 20),
        at_least(screen.width - 4, 0),
    )
}

/// The height of the picker: a row for each label and the frame, at most four rows less
/// than the screen has.
pub open spec fn picker_height(items: Seq<(String, String)>, screen: Area) -> int {
    at_most(at_least(low_16(items.len() as int) + 2, 3), at_least(screen.height - 4, 0))
}

/// The area of the picker, at the lower right of the screen.
pub open spec fn picker_area(items: Seq<(String, String)>, screen: Area) -> Area {
    let width = picker_width(items, screen);
    let height = picker_height(items, screen);
    Area {
        x: (screen.x + screen.width - width) as u16,
        y: (screen.y + screen.height - height) as u16,
        width: width as u16,
        height: height as u16,
    }
}

/// The style of a label.
pub open spec fn label_style(selected: bool) -> Style {
    if selected {
        Style { fg: None, bold: true, reversed: true }
    } else {
        colored_style(Color::Reset)
    }
}

/// The lines of the picker: one for each label that there is room for.
pub open spec fn picker_lines(
    items: Seq<(String, String)>,
    selected: usize,
    inner: Area,
) -> Seq<SpanView> {
    Seq::new(
        at_most(items.len() as int, inner.height as int) as nat,
        |k: int| SpanView { text: "  "@ + items[k].0@, style: label_style(k == selected) },
    )
}

/// The models of pieces of text.
pub open spec fn span_views(s: Seq<Span>) -> Seq<SpanView> {
    s.map_values(|x: Span| x@)
}

/// What the picker shows: its area, its title, its frame, the area within and the lines
/// there, one below the other.
#[derive(Debug)]
pub struct PickerView {
    pub area: Area,
    pub title: Span,
    pub frame: Style,
    pub inner: Area,
    pub lines: Vec<Span>,
}

fn longest_label(items: &Vec<(String, String)>) -> (r: usize)
    ensures
        r == longest(items@),
{
    let mut most: usize = 0;
    let mut k: usize = 0;
    assert(items@.take(0) =~= Seq::<(String, String)>::empty());
    while k < items.len()
        invariant
            k <= items@.len(),
            most == longest(items@.take(k as int)),
        decreases items@.len() - k,
    {
        let n: usize = items[k].0.as_str().as_bytes().len();
        proof {
            assert(items@.take(k + 1).drop_last() =~= items@.take(k as int));
            assert(items@.take(k + 1).last() == items@[k as int]);
        }
        if n > most {
            most = n;
        }
        k = k + 1;
    }
    assert(items@.take(items@.len() as int) =~= items@);
    most
}

fn low_bits(n: usize) -> (r: u16)
    ensures
        r == low_16(n as int),
{
    let r: u16 = (n & 0xffff) as u16;
    assert(n & 0xffff == n % 0x10000) by (bit_vector);
    r
}

fn place_picker(items: &Vec<(String, String)>, screen: Area) -> (r: Area)
    requires
        screen.on_screen(),
    ensures
        r == picker_area(items@, screen),
{
    let label: u16 = low_bits(longest_label(items));
    let wide: u16 = label.saturating_add(6);
    let wanted: u16 = if wide < 20 {
        20
    } else {
        wide
    };
    let room: u16 = screen.width.saturating_sub(4);
    let width: u16 = if wanted > room {
        room
    } else {
        wanted
    };
    let rows: u32 = low_bits(items.len()) as u32 + 2;
    let tall: u32 = if rows < 3 {
        3
    } else {
        rows
    };
    let space: u16 = screen.height.saturating_sub(4);
    let height: u16 = if tall > space as u32 {
        space
    } else {
        tall as u16
    };
    Area {
        x: screen.x + (screen.width - width),
        y: screen.y + (screen.height - height),
        width,
        height,
    }
}

/// What the picker shows on a screen; nothing where there is nothing to pick.
pub fn render_shell_picker(
    items: &Vec<(String, String)>,
    selected: usize,
    screen: Area,
) -> (r: Option<PickerView>)
    requires
        screen.on_screen(),
    ensures
        match r {
            None => items@.len() == 0,
            Some(view) => {
                &&& items@.len() > 0
                &&& view.area == picker_area(items@, screen)
                &&& view.title@ == bold_span(" Open shell in... "@)
                &&& view.frame == colored_style(Color::Reset)
                &&& view.inner == view.area.framed()
                &&& span_views(view.lines@) == picker_lines(items@, selected, view.inner)
            },
        },
{
    if items.len() == 0 {
        return None;
    }
    let area = place_picker(items, screen);
    let inner = inside_frame(area);
    let ghost want = picker_lines(items@, selected, inner);
    let mut lines: Vec<Span> = Vec::new();
    let mut k: usize = 0;
    assert(span_views(lines@) =~= want.take(0));
    while k < items.len() && k < inner.height as usize
        invariant
            want == picker_lines(items@, selected, inner),
            k <= want.len(),
            span_views(lines@) == want.take(k as int),
        decreases items@.len() - k,
    {
        let style = if k == selected {
            Style { fg: None, bold: true, reversed: true }
        } else {
            Style::colored(Color::Reset)
        };
        let ghost before = lines@;
        let line = Span::styled(concat("  ", items[k].0.as_str()).as_str(), style);
        proof {
            assert(span_views(before.push(line)) =~= span_views(before).push(line@));
            assert(want[k as int] == line@);
            assert(want.take(k + 1) =~= want.take(k as int).push(want[k as int]));
        }
        lines.push(line);
        k = k + 1;
    }
    assert(want.take(k as int) =~= want);
    let title = Span::bold(" Open shell in... ");
    Some(PickerView { area, title, frame: Style::colored(Color::Reset), inner, lines })
}

/// The picker lies on the screen, at its lower right.
pub proof fn picker_lies_on_screen(items: Seq<(String, String)>, screen: Area)
    requires
        screen.on_screen(),
    ensures
        picker_area(items, screen).lies_in(screen),
        picker_area(items, screen).on_screen(),
        picker_area(items, screen).x + picker_area(items, screen).width == screen.x
            + screen.width,
        picker_area(items, screen).y + picker_area(items, screen).height == screen.y
            + screen.height,
{
    longest_is_some(items);
}

proof fn longest_is_some(items: Seq<(String, String)>)
    ensures
        longest(items) >= 0,
    decreases items.len(),
{
    if items.len() > 0 {
        longest_is_some(items.drop_last());
    }
}

/// The picker shows the labels in their order, as many as there is room for, and marks the
/// selected one and no other.
pub proof fn picker_marks_the_selection(
    items: Seq<(String, String)>,
    selected: usize,
    inner: Area,
    k: int,
)
    ensures
        ({
            let lines = picker_lines(items, selected, inner);
            &&& lines.len() <= items.len() && lines.len() <= inner.height
            &&& lines.len() == items.len() || lines.len() == inner.height
            &&& 0 <= k < lines.len() ==> {
                &&& lines[k].text == "  "@ + items[k].0@
                &&& lines[k].style.reversed <==> k == selected
                &&& lines[k].style.bold <==> k == selected
            }
        }),
{
}

/// On a screen with room for it, the picker is as high as it takes to show every label, and
/// wide enough for each of them in its frame.
pub proof fn picker_has_room_for_labels(items: Seq<(String, String)>, screen: Area, k: int)
    requires
        0 <= k < items.len(),
        items.len() + 6 <= screen.height,
        longest(items) + 10 <= screen.width,
        screen.width >= 24,
    ensures
        picker_area(items, screen).framed().height == items.len(),
        encode_utf8(items[k].0@).len() + 4 <= picker_area(items, screen).framed().width,
        20 <= picker_area(items, screen).width,
{
    longest_is_longest(items, k);
}

proof fn longest_is_longest(items: Seq<(String, String)>, k: int)
    requires
        0 <= k < items.len(),
    ensures
        0 <= encode_utf8(items[k].0@).len() <= longest(items),
    decreases items.len(),
{
    if k < items.len() - 1 {
        longest_is_longest(items.drop_last(), k);
    }
}

} // verus!
