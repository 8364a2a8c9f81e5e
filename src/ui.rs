//! Panels of text: a `Frame` is a header and a line of data at a position,
//! a `UiElem` groups frames under a header and routes clicks to them.
use crate::coord::Coord;
use crate::params::SIZE_GRID_PIXELS;
use vstd::prelude::*;

verus! {

/// What a frame holds: position and size in grid units, header and text.
pub struct FrameView {
    pub x: int,
    pub y: int,
    pub height: int,
    pub width: int,
    pub header: Seq<char>,
    pub text: Seq<char>,
}

/// Whether the pixel `(px, py)` lies strictly inside the area that `f`
/// covers on screen.
pub open spec fn covers(f: FrameView, px: int, py: int) -> bool {
    &&& f.x * SIZE_GRID_PIXELS < px < (f.x + f.width) * SIZE_GRID_PIXELS
    &&& f.y * SIZE_GRID_PIXELS < py < (f.y + f.height) * SIZE_GRID_PIXELS
}

/// A click on a "Pause" frame turns it into "Start" and back; other headers
/// stay as they are.
pub open spec fn toggled(header: Seq<char>) -> Seq<char> {
    if header == "Pause"@ {
        "Start"@
    } else if header == "Start"@ {
        "Pause"@
    } else {
        header
    }
}

/// A base UI element with a header and text.
pub struct Frame {
    coord: Coord,
    height: i32,
    width: i32,
    header: String,
    text: String,
}

impl View for Frame {
    type V = FrameView;

    closed spec fn view(&self) -> FrameView {
        FrameView {
            x: self.coord@.0 as int,
            y: self.coord@.1 as int,
            height: self.height as int,
            width: self.width as int,
            header: self.header@,
            text: self.text@,
        }
    }
}

impl Frame {
    /// A frame placed `indent` to the right of and `offset` below its
    /// parent's position `coord`.
    pub fn new(
        coord: (i32, i32),
        height: i32,
        width: i32,
        indent: i32,
        offset: i32,
        header: String,
        text: &str,
    ) -> (r: Frame)
        requires
            i32::MIN <= coord.0 + indent <= i32::MAX,
            i32::MIN <= coord.1 + offset <= i32::MAX,
        ensures
            r@ == (FrameView {
                x: coord.0 + indent,
                y: coord.1 + offset,
                height: height as int,
                width: width as int,
                header: header@,
                text: text@,
            }),
    {
        Frame {
            coord: Coord::from((coord.0 + indent, coord.1 + offset)),
            height: height,
            width: width,
            header: header,
            text: text.to_string(),
        }
    }

    /// Replaces the text of the frame.
    pub fn update(&mut self, text: &str)
        ensures
            final(self)@ == (FrameView { text: text@, ..old(self)@ }),
    {
        self.text = text.to_string();
    }

    pub fn get_text(&self) -> (r: String)
        ensures
            r@ == self@.text,
    {
        self.text.clone()
    }

    pub fn get_header(&self) -> (r: String)
        ensures
            r@ == self@.header,
    {
        self.header.clone()
    }

    /// Position of the frame, in grid units.
    pub fn get_coords(&self) -> (r: (i32, i32))
        ensures
            r.0 == self@.x,
            r.1 == self@.y,
    {
        self.coord.get_coords()
    }

    /// Whether the pixel `(x, y)` lies strictly inside the frame.
    pub fn contains(&mut self, x: i32, y: i32) -> (r: bool)
        ensures
            *final(self) == *old(self),
            r == covers(old(self)@, x as int, y as int),
    {
        let coords = self.coord.get_coords();
        let left = coords.0 as i64 * SIZE_GRID_PIXELS as i64;
        let right = (coords.0 as i64 + self.width as i64) * SIZE_GRID_PIXELS as i64;
        let top = coords.1 as i64 * SIZE_GRID_PIXELS as i64;
        let bottom = (coords.1 as i64 + self.height as i64) * SIZE_GRID_PIXELS as i64;
        left < x as i64 && (x as i64) < right && top < y as i64 && (y as i64) < bottom
    }

    /// Acts on a click: a "Pause" frame becomes "Start" and the reverse.
    /// Returns the header as it was before the click.
    pub fn mouse_click(&mut self) -> (r: &str)
        ensures
            r@ == old(self)@.header,
            final(self)@ == (FrameView { header: toggled(old(self)@.header), ..old(self)@ }),
    {
        let pause = "Pause".to_string();
        let start = "Start".to_string();
        if self.header == pause {
            self.header = start;
            return "Pause";
        }
        if self.header == start {
            self.header = pause;
            return "Start";
        }
        self.header.as_str()
    }
}

/// The frames `s` with none of them covering `(px, py)`.
pub open spec fn none_covers(s: Seq<Frame>, px: int, py: int) -> bool {
    forall|i: int| 0 <= i < s.len() ==> !covers(#[trigger] s[i]@, px, py)
}

/// Index of the first frame of `s`, from `i` on, that covers `(px, py)`;
/// `s.len()` when there is none.
pub open spec fn first_covering_from(s: Seq<Frame>, px: int, py: int, i: int) -> int
    decreases s.len() - i,
{
    if i >= s.len() {
        s.len() as int
    } else if i < 0 {
        first_covering_from(s, px, py, 0)
    } else if covers(s[i]@, px, py) {
        i
    } else {
        first_covering_from(s, px, py, i + 1)
    }
}

/// Index of the first frame of `s` that covers `(px, py)`; `s.len()` when
/// there is none.
pub open spec fn first_covering(s: Seq<Frame>, px: int, py: int) -> int {
    first_covering_from(s, px, py, 0)
}

/// `t` is what a click at `(px, py)` leaves of the frames `s`: the first
/// frame that covers the pixel has its header toggled, the others are as
/// they were.
pub open spec fn click_result(s: Seq<Frame>, t: Seq<Frame>, px: int, py: int) -> bool {
    let k = first_covering(s, px, py);
    &&& t.len() == s.len()
    &&& k < s.len() ==> t[k]@ == (FrameView { header: toggled(s[k]@.header), ..s[k]@ })
    &&& forall|j: int| 0 <= j < s.len() && j != k ==> #[trigger] t[j] == s[j]
}

/// A UI element: a header over a list of children.
pub struct UiElem<T> {
    coord: Coord,
    header: String,
    children: Vec<T>,
}

impl<T> UiElem<T> {
    /// Position of the element, in grid units.
    pub closed spec fn position(&self) -> (i32, i32) {
        self.coord@
    }

    pub closed spec fn header(&self) -> Seq<char> {
        self.header@
    }

    pub closed spec fn children(&self) -> Seq<T> {
        self.children@
    }

    /// An element at `coord` over `children`. Height and width are not kept:
    /// an element's extent is that of its children.
    pub fn new(coord: (i32, i32), _height: i32, _width: i32, header: String, children: Vec<T>) -> (r: Self)
        ensures
            r.position() == coord,
            r.header() == header@,
            r.children() == children@,
    {
        UiElem { coord: Coord::from(coord), header: header, children: children }
    }

    pub fn get_coords(&self) -> (r: (i32, i32))
        ensures
            r == self.position(),
    {
        self.coord.get_coords()
    }

    pub fn get_header(&self) -> (r: String)
        ensures
            r@ == self.header(),
    {
        self.header.clone()
    }

    pub fn num_children(&self) -> (r: usize)
        ensures
            r == self.children().len(),
    {
        self.children.len()
    }
}

impl UiElem<Frame> {
    /// With `Some(text)`, gives the `i`-th child the text `text[i]`; with
    /// `None`, changes nothing.
    pub fn update(&mut self, text: Option<Vec<String>>)
        requires
            text is Some ==> text->0@.len() >= old(self).children().len(),
        ensures
            final(self).position() == old(self).position(),
            final(self).header() == old(self).header(),
            final(self).children().len() == old(self).children().len(),
            text is None ==> final(self).children() == old(self).children(),
            text is Some ==> forall|i: int|
                0 <= i < old(self).children().len() ==> #[trigger] final(self).children()[i]@ == (FrameView {
                    text: text->0@[i]@,
                    ..old(self).children()[i]@
                }),
    {
        match text {
            Some(text) => {
                let n = self.children.len();
                let mut i: usize = 0;
                while i < n
                    invariant
                        n == old(self).children().len(),
                        text@.len() >= n,
                        i <= n,
                        self.coord == old(self).coord,
                        self.header == old(self).header,
                        self.children@.len() == n,
                        forall|j: int| 0 <= j < i ==> #[trigger] self.children@[j]@ == (FrameView {
                            text: text@[j]@,
                            ..old(self).children()[j]@
                        }),
                        forall|j: int| i <= j < n ==> #[trigger] self.children@[j] == old(self).children()[j],
                    decreases n - i,
                {
                    self.children[i].update(text[i].as_str());
                    i = i + 1;
                }
            },
            None => {},
        }
    }

    /// A reference to the `index`-th child.
    pub fn nth_child(&mut self, index: i32) -> (r: &Frame)
        requires
            0 <= index < old(self).children().len(),
        ensures
            *r == old(self).children()[index as int],
            *final(self) == *old(self),
    {
        &self.children[index as usize]
    }

    /// Passes a click at pixel `(x, y)` to the first child that covers it, and
    /// returns what that child's click returned; `None` when no child covers
    /// the pixel.
    pub fn mouse_click(&mut self, x: i32, y: i32) -> (r: Option<String>)
        ensures
            final(self).position() == old(self).position(),
            final(self).header() == old(self).header(),
            ({
                let s = old(self).children();
                let k = first_covering(s, x as int, y as int);
                &&& 0 <= k <= s.len()
                &&& none_covers(s.take(k), x as int, y as int)
                &&& k < s.len() ==> covers(s[k]@, x as int, y as int)
                &&& k == s.len() <==> r is None
                &&& k < s.len() ==> r->0@ == s[k]@.header
                &&& click_result(s, final(self).children(), x as int, y as int)
            }),
    {
        let ghost s = old(self).children();
        let n = self.children.len();
        let mut i: usize = 0;
        while i < n
            invariant
                n == s.len(),
                s == old(self).children(),
                i <= n,
                self.coord == old(self).coord,
                self.header == old(self).header,
                self.children@ == s,
                none_covers(s.take(i as int), x as int, y as int),
                first_covering(s, x as int, y as int) == first_covering_from(s, x as int, y as int, i as int),
            decreases n - i,
        {
            if self.children[i].contains(x, y) {
                let header = self.children[i].mouse_click().to_string();
                return Some(header);
            }
            proof {
                assert(s.take(i + 1) =~= s.take(i as int).push(s[i as int]));
            }
            i = i + 1;
        }
        proof {
            assert(s.take(n as int) =~= s);
            assert(self.children@ =~= s);
        }
        None
    }
}

} // verus!
