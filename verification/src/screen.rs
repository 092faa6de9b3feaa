//! Choosing the monitor under the mouse cursor, so that the window opens
//! centered on it.

use vstd::prelude::*;

verus! {

/// A monitor's rectangle, as Xinerama reports it.
#[derive(Clone, Copy, Debug, PartialEq, Eq, Structural)]
pub struct ScreenRect {
    pub x_org: i16,
    pub y_org: i16,
    pub width: i16,
    pub height: i16,
}

/// The point lies inside the rectangle (left and top edges included, right
/// and bottom edges excluded).
pub open spec fn screen_contains(s: ScreenRect, x: int, y: int) -> bool {
    &&& s.x_org <= x < s.x_org + s.width
    &&& s.y_org <= y < s.y_org + s.height
}

/// The index of the first screen that contains the point, if any.
pub open spec fn first_screen_at(screens: Seq<ScreenRect>, x: int, y: int, from: nat) -> Option<nat>
    decreases screens.len() - from,
{
    if from >= screens.len() {
        None
    } else if screen_contains(screens[from as int], x, y) {
        Some(from)
    } else {
        first_screen_at(screens, x, y, from + 1)
    }
}

/// The first screen, in the order given, that contains the cursor.
pub fn screen_under_cursor(screens: &[ScreenRect], cursor_x: i32, cursor_y: i32) -> (r: Option<
    ScreenRect,
>)
    ensures
        r matches Some(s) ==> (first_screen_at(screens@, cursor_x as int, cursor_y as int, 0)
            matches Some(i) && screens@[i as int] == s),
        r is None ==> first_screen_at(screens@, cursor_x as int, cursor_y as int, 0) is None,
{
    let mut i: usize = 0;
    while i < screens.len()
        invariant
            i <= screens@.len(),
            first_screen_at(screens@, cursor_x as int, cursor_y as int, 0) == first_screen_at(
                screens@,
                cursor_x as int,
                cursor_y as int,
                i as nat,
            ),
        decreases screens@.len() - i,
    {
        let s = screens[i];
        let sx = s.x_org as i32;
        let sy = s.y_org as i32;
        let sw = s.width as i32;
        let sh = s.height as i32;
        if cursor_x >= sx && cursor_x < sx + sw && cursor_y >= sy && cursor_y < sy + sh {
            return Some(s);
        }
        i = i + 1;
    }
    None
}

/// The chosen screen contains the cursor, counting each edge as the
/// rectangle's origin plus its size: a returned index points at a screen
/// with `x_org <= x < x_org + width` and `y_org <= y < y_org + height`, and
/// no earlier screen has that; there is none exactly when no screen has it.
pub proof fn lemma_first_screen_at(screens: Seq<ScreenRect>, x: int, y: int, from: nat)
    ensures
        first_screen_at(screens, x, y, from) is Some ==> ({
            let i = first_screen_at(screens, x, y, from)->0 as int;
            &&& from <= i < screens.len()
            &&& screens[i].x_org <= x < screens[i].x_org + screens[i].width
            &&& screens[i].y_org <= y < screens[i].y_org + screens[i].height
        }),
        first_screen_at(screens, x, y, from) is Some ==> forall|j: int|
            from <= j < first_screen_at(screens, x, y, from)->0 ==> !(#[trigger] screens[j].x_org <= x
                < screens[j].x_org + screens[j].width && screens[j].y_org <= y < screens[j].y_org
                + screens[j].height),
        first_screen_at(screens, x, y, from) is None <==> forall|j: int|
            from <= j < screens.len() ==> !(#[trigger] screens[j].x_org <= x < screens[j].x_org
                + screens[j].width && screens[j].y_org <= y < screens[j].y_org
                + screens[j].height),
    decreases screens.len() - from,
{
    if from < screens.len() {
        lemma_first_screen_at(screens, x, y, from + 1);
    }
}

} // verus!
