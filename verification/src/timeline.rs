//! Rules of the keyframe timeline and of typed text: the targets of a keyframe sequence, which
//! keyframe is playing during a preview, what dropping a dragged keyframe does, and what a
//! submitted chat line sends.
use vstd::prelude::*;

verus! {

/// A character of the Unicode `White_Space` property: U+0009 to U+000D, U+0020, U+0085,
/// U+00A0, U+1680, U+2000 to U+200A, U+2028, U+2029, U+202F, U+205F and U+3000.
pub open spec fn is_white_space(c: char) -> bool {
    let u = c as u32;
    ||| 0x9 <= u <= 0xD
    ||| u == 0x20
    ||| u == 0x85
    ||| u == 0xA0
    ||| u == 0x1680
    ||| 0x2000 <= u <= 0x200A
    ||| u == 0x2028
    ||| u == 0x2029
    ||| u == 0x202F
    ||| u == 0x205F
    ||| u == 0x3000
}

/// `s` without its leading white space.
pub open spec fn trim_start_ws(s: Seq<char>) -> Seq<char>
    decreases s.len(),
{
    if s.len() > 0 && is_white_space(s[0]) {
        trim_start_ws(s.drop_first())
    } else {
        s
    }
}

/// `s` without its trailing white space.
pub open spec fn trim_end_ws(s: Seq<char>) -> Seq<char>
    decreases s.len(),
{
    if s.len() > 0 && is_white_space(s.last()) {
        trim_end_ws(s.drop_last())
    } else {
        s
    }
}

/// The text `s` without its leading and trailing white space.
pub open spec fn trimmed(s: Seq<char>) -> Seq<char> {
    trim_end_ws(trim_start_ws(s))
}

/// `str::trim`: claimed to return the text without its leading and trailing characters of the
/// Unicode `White_Space` property, as its documentation says.
#[verifier::external_body]
fn trim_text(s: &str) -> (r: &str)
    ensures
        r@ == trimmed(s@),
{
    s.trim()
}

/// Whether `s` holds a string with view `x`.
pub open spec fn holds(s: Seq<String>, x: Seq<char>) -> bool {
    exists|i: int| 0 <= i < s.len() && s[i]@ == x
}

/// Adds `candidate` to the targets of a sequence unless it is empty or already there; says
/// whether it was added.
pub fn add_target(targets: &mut Vec<String>, candidate: &str) -> (added: bool)
    ensures
        added == (candidate@.len() > 0 && !holds(old(targets)@, candidate@)),
        added ==> final(targets)@.len() == old(targets)@.len() + 1
            && final(targets)@.take(old(targets)@.len() as int) == old(targets)@
            && final(targets)@.last()@ == candidate@,
        !added ==> final(targets)@ == old(targets)@,
{
    let c = candidate.to_owned();
    if candidate.is_empty() {
        return false;
    }
    let n = targets.len();
    let mut i: usize = 0;
    while i < n
        invariant
            n == targets@.len(),
            i <= n,
            c@ == candidate@,
            forall|j: int| 0 <= j < i ==> targets@[j]@ != candidate@,
        decreases n - i,
    {
        if targets[i] == c {
            return false;
        }
        i = i + 1;
    }
    let ghost before = targets@;
    targets.push(c);
    assert(targets@.take(before.len() as int) =~= before);
    true
}

/// Adds the typed `input`, without its surrounding white space, to the targets; says whether
/// it was added.
pub fn add_typed_target(targets: &mut Vec<String>, input: &str) -> (added: bool)
    ensures
        added == (trimmed(input@).len() > 0 && !holds(old(targets)@, trimmed(input@))),
        added ==> final(targets)@.len() == old(targets)@.len() + 1
            && final(targets)@.take(old(targets)@.len() as int) == old(targets)@
            && final(targets)@.last()@ == trimmed(input@),
        !added ==> final(targets)@ == old(targets)@,
{
    let t = trim_text(input);
    add_target(targets, t)
}

/// The chat message sent for a submitted `input`: the input without its surrounding white
/// space, and nothing when that is empty.
pub fn chat_message(input: &str) -> (r: Option<String>)
    ensures
        match r {
            Some(m) => m@ == trimmed(input@) && m@.len() > 0,
            None => trimmed(input@).len() == 0,
        },
{
    let t = trim_text(input);
    if t.is_empty() {
        None
    } else {
        Some(t.to_owned())
    }
}

/// During a preview the engine points at the next keyframe to run, so keyframe `i` is playing
/// when that pointer is `i + 1`.
pub fn is_playing(preview_index: Option<usize>, i: usize) -> (r: bool)
    ensures
        r == match preview_index {
            Some(p) => p > 0 && p - 1 == i,
            None => false,
        },
{
    match preview_index {
        Some(p) => p > 0 && p - 1 == i,
        None => false,
    }
}

/// Dropping a dragged keyframe on keyframe `target` moves it there, unless it is dropped on
/// itself or nothing is dragged: `(from, to)`.
pub fn drop_move(dragging: Option<usize>, target: usize) -> (r: Option<(usize, usize)>)
    ensures
        r == match dragging {
            Some(from) => if from != target {
                Some((from, target))
            } else {
                None
            },
            None => None,
        },
{
    match dragging {
        Some(from) => if from != target {
            Some((from, target))
        } else {
            None
        },
        None => None,
    }
}

} // verus!
