//! The instruction language of a command sheet: what each line of text asks for.
use vstd::prelude::*;
use crate::text::{
    all_ws, chars_of, dec_int, dec_nat, eq_ignore_case, eq_ignore_case_at, has_prefix, is_ws,
    lemma_dec_int_no_ws, lemma_dec_nat_digits, lemma_parse_i32_dec, lemma_parse_u64_dec,
    lemma_trim_fixed, lemma_trim_padding,
    next_word, parse_i32, parse_i32_at, parse_u64, parse_u64_at, prefix_at, trim, trim_bounds,
    trim_start, word_len, words,
};

verus! {

broadcast use vstd::string::group_string_axioms;

/// One instruction, as read from its text.
#[derive(Debug)]
pub enum Action {
    /// `click <x> <y>`
    Click { x: i32, y: i32 },
    /// `doubleclick <x> <y>`
    DoubleClick { x: i32, y: i32 },
    /// `move <x> <y>`
    Move { x: i32, y: i32 },
    /// `mousedown <x> <y>`
    MouseDown { x: i32, y: i32 },
    /// `mouseup <x> <y>`
    MouseUp { x: i32, y: i32 },
    /// `drag <x1> <y1> <x2> <y2>`
    Drag { x1: i32, y1: i32, x2: i32, y2: i32 },
    /// `scroll <delta>`
    Scroll { delta: i32 },
    /// `type: <text>`
    TypeText { text: String },
    /// `key: <NAME>`
    KeyPress { key: String },
    /// `hotkey: <combo>`
    Hotkey { combo: String },
    /// `screenshot <path>`
    Screenshot { path: String },
    /// `wait <ms>`
    Wait { ms: u64 },
    /// `noop`
    Noop,
    /// Any other text, handed on as it stands (trimmed).
    Dispatch { instruction: String },
}

/// The mathematical value of an [`Action`]: its strings as character sequences.
pub enum ActionView {
    Click { x: i32, y: i32 },
    DoubleClick { x: i32, y: i32 },
    Move { x: i32, y: i32 },
    MouseDown { x: i32, y: i32 },
    MouseUp { x: i32, y: i32 },
    Drag { x1: i32, y1: i32, x2: i32, y2: i32 },
    Scroll { delta: i32 },
    TypeText { text: Seq<char> },
    KeyPress { key: Seq<char> },
    Hotkey { combo: Seq<char> },
    Screenshot { path: Seq<char> },
    Wait { ms: u64 },
    Noop,
    Dispatch { instruction: Seq<char> },
}

impl View for Action {
    type V = ActionView;

    open spec fn view(&self) -> ActionView {
        match self {
            Action::Click { x, y } => ActionView::Click { x: *x, y: *y },
            Action::DoubleClick { x, y } => ActionView::DoubleClick { x: *x, y: *y },
            Action::Move { x, y } => ActionView::Move { x: *x, y: *y },
            Action::MouseDown { x, y } => ActionView::MouseDown { x: *x, y: *y },
            Action::MouseUp { x, y } => ActionView::MouseUp { x: *x, y: *y },
            Action::Drag { x1, y1, x2, y2 } => ActionView::Drag {
                x1: *x1,
                y1: *y1,
                x2: *x2,
                y2: *y2,
            },
            Action::Scroll { delta } => ActionView::Scroll { delta: *delta },
            Action::TypeText { text } => ActionView::TypeText { text: text@ },
            Action::KeyPress { key } => ActionView::KeyPress { key: key@ },
            Action::Hotkey { combo } => ActionView::Hotkey { combo: combo@ },
            Action::Screenshot { path } => ActionView::Screenshot { path: path@ },
            Action::Wait { ms } => ActionView::Wait { ms: *ms },
            Action::Noop => ActionView::Noop,
            Action::Dispatch { instruction } => ActionView::Dispatch { instruction: instruction@ },
        }
    }
}

/// The first two whitespace-separated words of `s`, each read as an `i32`.
pub open spec fn two_ints(s: Seq<char>) -> Option<(i32, i32)> {
    let w = words(s);
    if w.len() >= 2 && parse_i32(w[0]) is Some && parse_i32(w[1]) is Some {
        Some((parse_i32(w[0])->0, parse_i32(w[1])->0))
    } else {
        None
    }
}

/// The first four whitespace-separated words of `s`, each read as an `i32`.
pub open spec fn four_ints(s: Seq<char>) -> Option<(i32, i32, i32, i32)> {
    let w = words(s);
    if w.len() >= 4 && parse_i32(w[0]) is Some && parse_i32(w[1]) is Some && parse_i32(w[2]) is Some
        && parse_i32(w[3]) is Some {
        Some((parse_i32(w[0])->0, parse_i32(w[1])->0, parse_i32(w[2])->0, parse_i32(w[3])->0))
    } else {
        None
    }
}

/// What an instruction text asks for, or the message that rejects it.
///
/// The text is trimmed first; the prefixes are tried in the order of the command sheet, and a
/// text that matches none of them is handed on as it stands.
pub open spec fn spec_parse_instruction(s: Seq<char>) -> Result<ActionView, Seq<char>> {
    let t = trim(s);
    if has_prefix(t, "click "@) {
        match two_ints(t.skip("click "@.len() as int)) {
            Some((x, y)) => Ok(ActionView::Click { x, y }),
            None => Err("invalid click format; use: click <x> <y>"@),
        }
    } else if has_prefix(t, "doubleclick "@) {
        match two_ints(t.skip("doubleclick "@.len() as int)) {
            Some((x, y)) => Ok(ActionView::DoubleClick { x, y }),
            None => Err("invalid doubleclick format; use: doubleclick <x> <y>"@),
        }
    } else if has_prefix(t, "move "@) {
        match two_ints(t.skip("move "@.len() as int)) {
            Some((x, y)) => Ok(ActionView::Move { x, y }),
            None => Err("invalid move format; use: move <x> <y>"@),
        }
    } else if has_prefix(t, "mousedown "@) {
        match two_ints(t.skip("mousedown "@.len() as int)) {
            Some((x, y)) => Ok(ActionView::MouseDown { x, y }),
            None => Err("invalid mousedown format; use: mousedown <x> <y>"@),
        }
    } else if has_prefix(t, "mouseup "@) {
        match two_ints(t.skip("mouseup "@.len() as int)) {
            Some((x, y)) => Ok(ActionView::MouseUp { x, y }),
            None => Err("invalid mouseup format; use: mouseup <x> <y>"@),
        }
    } else if has_prefix(t, "drag "@) {
        match four_ints(t.skip("drag "@.len() as int)) {
            Some((x1, y1, x2, y2)) => Ok(ActionView::Drag { x1, y1, x2, y2 }),
            None => Err("invalid drag format; use: drag <x1> <y1> <x2> <y2>"@),
        }
    } else if has_prefix(t, "scroll "@) {
        match parse_i32(trim(t.skip("scroll "@.len() as int))) {
            Some(delta) => Ok(ActionView::Scroll { delta }),
            None => Err("invalid scroll format; use: scroll <delta>"@),
        }
    } else if has_prefix(t, "type:"@) {
        let text = trim(t.skip("type:"@.len() as int));
        if text.len() == 0 {
            Err("type requires text; use: type: your text"@)
        } else {
            Ok(ActionView::TypeText { text })
        }
    } else if has_prefix(t, "key:"@) {
        let key = trim(t.skip("key:"@.len() as int));
        if key.len() == 0 {
            Err("key requires a name; use: key: ENTER"@)
        } else {
            Ok(ActionView::KeyPress { key })
        }
    } else if has_prefix(t, "hotkey:"@) {
        let combo = trim(t.skip("hotkey:"@.len() as int));
        if combo.len() == 0 {
            Err("hotkey requires a combo; use: hotkey: CTRL+S"@)
        } else {
            Ok(ActionView::Hotkey { combo })
        }
    } else if has_prefix(t, "screenshot "@) {
        let path = trim(t.skip("screenshot "@.len() as int));
        if path.len() == 0 {
            Err("screenshot requires a path; use: screenshot <path>"@)
        } else {
            Ok(ActionView::Screenshot { path })
        }
    } else if has_prefix(t, "wait "@) {
        match parse_u64(trim(t.skip("wait "@.len() as int))) {
            Some(ms) => Ok(ActionView::Wait { ms }),
            None => Err("invalid wait format; use: wait <ms>"@),
        }
    } else if eq_ignore_case(t, "noop"@) {
        Ok(ActionView::Noop)
    } else {
        Ok(ActionView::Dispatch { instruction: t })
    }
}

/// The first two words of `cs[a..b]` as `i32`s.
fn two_ints_at(cs: &Vec<char>, a: usize, b: usize) -> (r: Option<(i32, i32)>)
    requires
        a <= b <= cs@.len(),
    ensures
        r == two_ints(cs@.subrange(a as int, b as int)),
{
    let ghost s = cs@.subrange(a as int, b as int);
    let (a0, b0) = match next_word(cs, a, b) {
        None => return None,
        Some(w) => w,
    };
    let x = match parse_i32_at(cs, a0, b0) {
        None => return None,
        Some(x) => x,
    };
    let (a1, b1) = match next_word(cs, b0, b) {
        None => return None,
        Some(w) => w,
    };
    let y = match parse_i32_at(cs, a1, b1) {
        None => return None,
        Some(y) => y,
    };
    Some((x, y))
}

/// The first four words of `cs[a..b]` as `i32`s.
fn four_ints_at(cs: &Vec<char>, a: usize, b: usize) -> (r: Option<(i32, i32, i32, i32)>)
    requires
        a <= b <= cs@.len(),
    ensures
        r == four_ints(cs@.subrange(a as int, b as int)),
{
    let (a0, b0) = match next_word(cs, a, b) {
        None => return None,
        Some(w) => w,
    };
    let x1 = match parse_i32_at(cs, a0, b0) {
        None => return None,
        Some(v) => v,
    };
    let (a1, b1) = match next_word(cs, b0, b) {
        None => return None,
        Some(w) => w,
    };
    let y1 = match parse_i32_at(cs, a1, b1) {
        None => return None,
        Some(v) => v,
    };
    let (a2, b2) = match next_word(cs, b1, b) {
        None => return None,
        Some(w) => w,
    };
    let x2 = match parse_i32_at(cs, a2, b2) {
        None => return None,
        Some(v) => v,
    };
    let (a3, b3) = match next_word(cs, b2, b) {
        None => return None,
        Some(w) => w,
    };
    let y2 = match parse_i32_at(cs, a3, b3) {
        None => return None,
        Some(v) => v,
    };
    Some((x1, y1, x2, y2))
}

/// `parse_two_ints`: the first two whitespace-separated words of `input` as `i32`s.
pub fn parse_two_ints(input: &str) -> (r: Option<(i32, i32)>)
    ensures
        r == two_ints(input@),
{
    let cs = chars_of(input);
    assert(cs@.subrange(0, cs@.len() as int) =~= input@);
    two_ints_at(&cs, 0, cs.len())
}

/// `parse_four_ints`: the first four whitespace-separated words of `input` as `i32`s.
pub fn parse_four_ints(input: &str) -> (r: Option<(i32, i32, i32, i32)>)
    ensures
        r == four_ints(input@),
{
    let cs = chars_of(input);
    assert(cs@.subrange(0, cs@.len() as int) =~= input@);
    four_ints_at(&cs, 0, cs.len())
}

/// Position just after the prefix `p` of `cs[a..b]`.
fn after_prefix(cs: &Vec<char>, a: usize, b: usize, p: &str) -> (r: usize)
    requires
        a <= b <= cs@.len(),
        has_prefix(cs@.subrange(a as int, b as int), p@),
    ensures
        a <= r <= b,
        cs@.subrange(r as int, b as int) == cs@.subrange(a as int, b as int).skip(p@.len() as int),
{
    let r = a + p.unicode_len();
    assert(cs@.subrange(r as int, b as int) =~= cs@.subrange(a as int, b as int).skip(
        p@.len() as int,
    ));
    r
}

/// `instruction[a..b]` as an owned string.
fn owned_slice(instruction: &str, cs: &Vec<char>, a: usize, b: usize) -> (r: String)
    requires
        cs@ == instruction@,
        a <= b <= cs@.len(),
    ensures
        r@ == cs@.subrange(a as int, b as int),
{
    String::from_str(instruction.substring_char(a, b))
}

/// The argument text after prefix `p`, trimmed, as bounds into `cs`.
fn trimmed_after(cs: &Vec<char>, a: usize, b: usize, p: &str) -> (r: (usize, usize))
    requires
        a <= b <= cs@.len(),
        has_prefix(cs@.subrange(a as int, b as int), p@),
    ensures
        a <= r.0 <= r.1 <= b,
        cs@.subrange(r.0 as int, r.1 as int) == trim(
            cs@.subrange(a as int, b as int).skip(p@.len() as int),
        ),
{
    let s = after_prefix(cs, a, b, p);
    let (x, y) = trim_bounds(cs, s, b);
    (x, y)
}

/// Reads an instruction text (see [`spec_parse_instruction`]).
pub fn parse_instruction(instruction: &str) -> (r: Result<Action, String>)
    ensures
        match r {
            Ok(a) => spec_parse_instruction(instruction@) == Ok::<ActionView, Seq<char>>(a@),
            Err(e) => spec_parse_instruction(instruction@) == Err::<ActionView, Seq<char>>(e@),
        },
{
    let cs = chars_of(instruction);
    let (a, b) = trim_bounds(&cs, 0, cs.len());
    assert(cs@.subrange(0, cs@.len() as int) =~= instruction@);
    let ghost t = cs@.subrange(a as int, b as int);
    if prefix_at(&cs, a, b, "click ") {
        let s = after_prefix(&cs, a, b, "click ");
        match parse_two_ints(instruction.substring_char(s, b)) {
            Some((x, y)) => Ok(Action::Click { x, y }),
            None => Err(String::from_str("invalid click format; use: click <x> <y>")),
        }
    } else if prefix_at(&cs, a, b, "doubleclick ") {
        let s = after_prefix(&cs, a, b, "doubleclick ");
        match parse_two_ints(instruction.substring_char(s, b)) {
            Some((x, y)) => Ok(Action::DoubleClick { x, y }),
            None => Err(String::from_str("invalid doubleclick format; use: doubleclick <x> <y>")),
        }
    } else if prefix_at(&cs, a, b, "move ") {
        let s = after_prefix(&cs, a, b, "move ");
        match parse_two_ints(instruction.substring_char(s, b)) {
            Some((x, y)) => Ok(Action::Move { x, y }),
            None => Err(String::from_str("invalid move format; use: move <x> <y>")),
        }
    } else if prefix_at(&cs, a, b, "mousedown ") {
        let s = after_prefix(&cs, a, b, "mousedown ");
        match parse_two_ints(instruction.substring_char(s, b)) {
            Some((x, y)) => Ok(Action::MouseDown { x, y }),
            None => Err(String::from_str("invalid mousedown format; use: mousedown <x> <y>")),
        }
    } else if prefix_at(&cs, a, b, "mouseup ") {
        let s = after_prefix(&cs, a, b, "mouseup ");
        match parse_two_ints(instruction.substring_char(s, b)) {
            Some((x, y)) => Ok(Action::MouseUp { x, y }),
            None => Err(String::from_str("invalid mouseup format; use: mouseup <x> <y>")),
        }
    } else if prefix_at(&cs, a, b, "drag ") {
        let s = after_prefix(&cs, a, b, "drag ");
        match parse_four_ints(instruction.substring_char(s, b)) {
            Some((x1, y1, x2, y2)) => Ok(Action::Drag { x1, y1, x2, y2 }),
            None => Err(String::from_str("invalid drag format; use: drag <x1> <y1> <x2> <y2>")),
        }
    } else if prefix_at(&cs, a, b, "scroll ") {
        let (x, y) = trimmed_after(&cs, a, b, "scroll ");
        match parse_i32_at(&cs, x, y) {
            Some(delta) => Ok(Action::Scroll { delta }),
            None => Err(String::from_str("invalid scroll format; use: scroll <delta>")),
        }
    } else if prefix_at(&cs, a, b, "type:") {
        let (x, y) = trimmed_after(&cs, a, b, "type:");
        if x == y {
            Err(String::from_str("type requires text; use: type: your text"))
        } else {
            Ok(Action::TypeText { text: owned_slice(instruction, &cs, x, y) })
        }
    } else if prefix_at(&cs, a, b, "key:") {
        let (x, y) = trimmed_after(&cs, a, b, "key:");
        if x == y {
            Err(String::from_str("key requires a name; use: key: ENTER"))
        } else {
            Ok(Action::KeyPress { key: owned_slice(instruction, &cs, x, y) })
        }
    } else if prefix_at(&cs, a, b, "hotkey:") {
        let (x, y) = trimmed_after(&cs, a, b, "hotkey:");
        if x == y {
            Err(String::from_str("hotkey requires a combo; use: hotkey: CTRL+S"))
        } else {
            Ok(Action::Hotkey { combo: owned_slice(instruction, &cs, x, y) })
        }
    } else if prefix_at(&cs, a, b, "screenshot ") {
        let (x, y) = trimmed_after(&cs, a, b, "screenshot ");
        if x == y {
            Err(String::from_str("screenshot requires a path; use: screenshot <path>"))
        } else {
            Ok(Action::Screenshot { path: owned_slice(instruction, &cs, x, y) })
        }
    } else if prefix_at(&cs, a, b, "wait ") {
        let (x, y) = trimmed_after(&cs, a, b, "wait ");
        match parse_u64_at(&cs, x, y) {
            Some(ms) => Ok(Action::Wait { ms }),
            None => Err(String::from_str("invalid wait format; use: wait <ms>")),
        }
    } else if eq_ignore_case_at(&cs, a, b, "noop") {
        Ok(Action::Noop)
    } else {
        Ok(Action::Dispatch { instruction: owned_slice(instruction, &cs, a, b) })
    }
}

// ---------------------------------------------------------------------------
// Laws
// ---------------------------------------------------------------------------

/// Whitespace before and after an instruction does not change what it asks for.
pub proof fn lemma_surrounding_whitespace_ignored(pre: Seq<char>, s: Seq<char>, post: Seq<char>)
    requires
        all_ws(pre),
        all_ws(post),
    ensures
        spec_parse_instruction(pre + s + post) == spec_parse_instruction(s),
{
    lemma_trim_padding(pre, s, post);
}

/// The text that the command sheet documents for an action: the instruction's name, then its
/// arguments, numbers in decimal, separated by single spaces.
pub open spec fn documented_text(a: ActionView) -> Seq<char> {
    match a {
        ActionView::Click { x, y } => "click "@ + dec_int(x as int) + " "@ + dec_int(y as int),
        ActionView::DoubleClick { x, y } => "doubleclick "@ + dec_int(x as int) + " "@ + dec_int(
            y as int,
        ),
        ActionView::Move { x, y } => "move "@ + dec_int(x as int) + " "@ + dec_int(y as int),
        ActionView::MouseDown { x, y } => "mousedown "@ + dec_int(x as int) + " "@ + dec_int(
            y as int,
        ),
        ActionView::MouseUp { x, y } => "mouseup "@ + dec_int(x as int) + " "@ + dec_int(
            y as int,
        ),
        ActionView::Drag { x1, y1, x2, y2 } => "drag "@ + dec_int(x1 as int) + " "@ + dec_int(
            y1 as int,
        ) + " "@ + dec_int(x2 as int) + " "@ + dec_int(y2 as int),
        ActionView::Scroll { delta } => "scroll "@ + dec_int(delta as int),
        ActionView::TypeText { text } => "type: "@ + text,
        ActionView::KeyPress { key } => "key: "@ + key,
        ActionView::Hotkey { combo } => "hotkey: "@ + combo,
        ActionView::Screenshot { path } => "screenshot "@ + path,
        ActionView::Wait { ms } => "wait "@ + dec_nat(ms as nat),
        ActionView::Noop => "noop"@,
        ActionView::Dispatch { instruction } => instruction,
    }
}

/// A text argument as the command sheet writes it: not empty, no whitespace at either end.
pub open spec fn tidy(text: Seq<char>) -> bool {
    text.len() > 0 && !is_ws(text[0]) && !is_ws(text.last())
}

/// The actions that the command sheet has a syntax for, with tidy text arguments.
pub open spec fn documentable(a: ActionView) -> bool {
    match a {
        ActionView::TypeText { text } => tidy(text),
        ActionView::KeyPress { key } => tidy(key),
        ActionView::Hotkey { combo } => tidy(combo),
        ActionView::Screenshot { path } => tidy(path),
        ActionView::Dispatch { .. } => false,
        _ => true,
    }
}

proof fn lemma_word_len_concat(w: Seq<char>, rest: Seq<char>)
    requires
        forall|i: int| 0 <= i < w.len() ==> !is_ws(#[trigger] w[i]),
        rest.len() == 0 || is_ws(rest[0]),
    ensures
        word_len(w + rest) == w.len(),
    decreases w.len(),
{
    if w.len() == 0 {
        assert(w + rest =~= rest);
    } else {
        assert((w + rest)[0] == w[0]);
        assert((w + rest).drop_first() =~= w.drop_first() + rest);
        assert forall|i: int| 0 <= i < w.drop_first().len() implies !is_ws(
            #[trigger] w.drop_first()[i],
        ) by {
            assert(w.drop_first()[i] == w[i + 1]);
        }
        lemma_word_len_concat(w.drop_first(), rest);
    }
}

/// A word followed by whitespace (or nothing) is the first word.
proof fn lemma_words_cons(w: Seq<char>, rest: Seq<char>)
    requires
        w.len() > 0,
        forall|i: int| 0 <= i < w.len() ==> !is_ws(#[trigger] w[i]),
        rest.len() == 0 || is_ws(rest[0]),
    ensures
        words(w + rest) == seq![w] + words(rest),
{
    let t = w + rest;
    assert(t[0] == w[0]);
    assert(trim_start(t) == t);
    lemma_word_len_concat(w, rest);
    assert(t.take(w.len() as int) =~= w);
    assert(t.skip(w.len() as int) =~= rest);
}

proof fn lemma_words_space(x: Seq<char>)
    ensures
        words(" "@ + x) == words(x),
{
    reveal_strlit(" ");
    let t = " "@ + x;
    assert(t.drop_first() =~= x);
    assert(trim_start(t) == trim_start(x));
}

/// Words separated by single spaces are read back as those words.
proof fn lemma_words_spaced(w: Seq<char>, x: Seq<char>)
    requires
        w.len() > 0,
        forall|i: int| 0 <= i < w.len() ==> !is_ws(#[trigger] w[i]),
    ensures
        words(w + " "@ + x) == seq![w] + words(x),
{
    reveal_strlit(" ");
    assert(w + " "@ + x =~= w + (" "@ + x));
    lemma_words_cons(w, " "@ + x);
    lemma_words_space(x);
}

proof fn lemma_words_single(w: Seq<char>)
    requires
        w.len() > 0,
        forall|i: int| 0 <= i < w.len() ==> !is_ws(#[trigger] w[i]),
    ensures
        words(w) == seq![w],
{
    lemma_words_cons(w, Seq::empty());
    assert(w + Seq::<char>::empty() =~= w);
    assert(trim_start(Seq::<char>::empty()).len() == 0);
    assert(seq![w] + Seq::<Seq<char>>::empty() =~= seq![w]);
}

proof fn lemma_two_ints_dec(x: i32, y: i32)
    ensures
        two_ints(dec_int(x as int) + " "@ + dec_int(y as int)) == Some((x, y)),
{
    let dx = dec_int(x as int);
    let dy = dec_int(y as int);
    lemma_dec_int_no_ws(x as int);
    lemma_dec_int_no_ws(y as int);
    lemma_parse_i32_dec(x);
    lemma_parse_i32_dec(y);
    lemma_words_spaced(dx, dy);
    lemma_words_single(dy);
    assert(words(dx + " "@ + dy) =~= seq![dx, dy]);
}

proof fn lemma_four_ints_dec(x1: i32, y1: i32, x2: i32, y2: i32)
    ensures
        four_ints(
            dec_int(x1 as int) + " "@ + dec_int(y1 as int) + " "@ + dec_int(x2 as int) + " "@
                + dec_int(y2 as int),
        ) == Some((x1, y1, x2, y2)),
{
    let a = dec_int(x1 as int);
    let b = dec_int(y1 as int);
    let c = dec_int(x2 as int);
    let d = dec_int(y2 as int);
    lemma_dec_int_no_ws(x1 as int);
    lemma_dec_int_no_ws(y1 as int);
    lemma_dec_int_no_ws(x2 as int);
    lemma_dec_int_no_ws(y2 as int);
    lemma_parse_i32_dec(x1);
    lemma_parse_i32_dec(y1);
    lemma_parse_i32_dec(x2);
    lemma_parse_i32_dec(y2);
    let s = a + " "@ + b + " "@ + c + " "@ + d;
    assert(s =~= a + " "@ + (b + " "@ + (c + " "@ + d)));
    lemma_words_spaced(a, b + " "@ + (c + " "@ + d));
    lemma_words_spaced(b, c + " "@ + d);
    lemma_words_spaced(c, d);
    lemma_words_single(d);
    assert(words(s) =~= seq![a, b, c, d]);
}

/// A tidy text is its own trim, also after one leading space.
proof fn lemma_tidy_trim(text: Seq<char>)
    requires
        tidy(text),
    ensures
        trim(text) == text,
        trim(" "@ + text) == text,
{
    reveal_strlit(" ");
    lemma_trim_fixed(text);
    assert(all_ws(" "@));
    assert(all_ws(Seq::<char>::empty()));
    lemma_trim_padding(" "@, text, Seq::empty());
    assert(" "@ + text + Seq::<char>::empty() =~= " "@ + text);
}

/// `p + x` starts with `p`, and what follows `p` is `x`.
proof fn lemma_after_prefix(p: Seq<char>, x: Seq<char>)
    ensures
        has_prefix(p + x, p),
        (p + x).skip(p.len() as int) == x,
{
    assert((p + x).take(p.len() as int) =~= p);
    assert((p + x).skip(p.len() as int) =~= x);
}

proof fn lemma_click_text(x: i32, y: i32)
    ensures
        spec_parse_instruction(documented_text(ActionView::Click { x, y })) == Ok::<
            ActionView,
            Seq<char>,
        >(ActionView::Click { x, y }),
{
    reveal_strlit("click ");
    reveal_strlit(" ");
    let s = documented_text(ActionView::Click { x, y });
    let rest = dec_int(x as int) + " "@ + dec_int(y as int);
    lemma_dec_int_no_ws(y as int);
    assert(s =~= "click "@ + rest);
    assert(s.last() == dec_int(y as int).last());
    lemma_trim_fixed(s);
    lemma_after_prefix("click "@, rest);
    lemma_two_ints_dec(x, y);
}

proof fn lemma_double_click_text(x: i32, y: i32)
    ensures
        spec_parse_instruction(documented_text(ActionView::DoubleClick { x, y })) == Ok::<
            ActionView,
            Seq<char>,
        >(ActionView::DoubleClick { x, y }),
{
    reveal_strlit("click ");
    reveal_strlit("doubleclick ");
    reveal_strlit(" ");
    let s = documented_text(ActionView::DoubleClick { x, y });
    let rest = dec_int(x as int) + " "@ + dec_int(y as int);
    lemma_dec_int_no_ws(y as int);
    assert(s =~= "doubleclick "@ + rest);
    assert(s.last() == dec_int(y as int).last());
    lemma_trim_fixed(s);
    assert(s[1] != "click "@[1]);
    lemma_after_prefix("doubleclick "@, rest);
    lemma_two_ints_dec(x, y);
}

proof fn lemma_move_text(x: i32, y: i32)
    ensures
        spec_parse_instruction(documented_text(ActionView::Move { x, y })) == Ok::<
            ActionView,
            Seq<char>,
        >(ActionView::Move { x, y }),
{
    reveal_strlit("click ");
    reveal_strlit("doubleclick ");
    reveal_strlit("move ");
    reveal_strlit(" ");
    let s = documented_text(ActionView::Move { x, y });
    let rest = dec_int(x as int) + " "@ + dec_int(y as int);
    lemma_dec_int_no_ws(y as int);
    assert(s =~= "move "@ + rest);
    assert(s.last() == dec_int(y as int).last());
    lemma_trim_fixed(s);
    assert(s[0] != "click "@[0]);
    assert(s[0] != "doubleclick "@[0]);
    lemma_after_prefix("move "@, rest);
    lemma_two_ints_dec(x, y);
}

proof fn lemma_mouse_down_text(x: i32, y: i32)
    ensures
        spec_parse_instruction(documented_text(ActionView::MouseDown { x, y })) == Ok::<
            ActionView,
            Seq<char>,
        >(ActionView::MouseDown { x, y }),
{
    reveal_strlit("click ");
    reveal_strlit("doubleclick ");
    reveal_strlit("move ");
    reveal_strlit("mousedown ");
    reveal_strlit(" ");
    let s = documented_text(ActionView::MouseDown { x, y });
    let rest = dec_int(x as int) + " "@ + dec_int(y as int);
    lemma_dec_int_no_ws(y as int);
    assert(s =~= "mousedown "@ + rest);
    assert(s.last() == dec_int(y as int).last());
    lemma_trim_fixed(s);
    assert(s[0] != "click "@[0]);
    assert(s[0] != "doubleclick "@[0]);
    assert(s[2] != "move "@[2]);
    lemma_after_prefix("mousedown "@, rest);
    lemma_two_ints_dec(x, y);
}

proof fn lemma_mouse_up_text(x: i32, y: i32)
    ensures
        spec_parse_instruction(documented_text(ActionView::MouseUp { x, y })) == Ok::<
            ActionView,
            Seq<char>,
        >(ActionView::MouseUp { x, y }),
{
    reveal_strlit("click ");
    reveal_strlit("doubleclick ");
    reveal_strlit("move ");
    reveal_strlit("mousedown ");
    reveal_strlit("mouseup ");
    reveal_strlit(" ");
    let s = documented_text(ActionView::MouseUp { x, y });
    let rest = dec_int(x as int) + " "@ + dec_int(y as int);
    lemma_dec_int_no_ws(y as int);
    assert(s =~= "mouseup "@ + rest);
    assert(s.last() == dec_int(y as int).last());
    lemma_trim_fixed(s);
    assert(s[0] != "click "@[0]);
    assert(s[0] != "doubleclick "@[0]);
    assert(s[2] != "move "@[2]);
    assert(s[5] != "mousedown "@[5]);
    lemma_after_prefix("mouseup "@, rest);
    lemma_two_ints_dec(x, y);
}

proof fn lemma_drag_text(x1: i32, y1: i32, x2: i32, y2: i32)
    ensures
        spec_parse_instruction(documented_text(ActionView::Drag { x1, y1, x2, y2 })) == Ok::<
            ActionView,
            Seq<char>,
        >(ActionView::Drag { x1, y1, x2, y2 }),
{
    reveal_strlit("click ");
    reveal_strlit("doubleclick ");
    reveal_strlit("move ");
    reveal_strlit("mousedown ");
    reveal_strlit("mouseup ");
    reveal_strlit("drag ");
    reveal_strlit(" ");
    let s = documented_text(ActionView::Drag { x1, y1, x2, y2 });
    let rest = dec_int(x1 as int) + " "@ + dec_int(y1 as int) + " "@ + dec_int(x2 as int)
        + " "@ + dec_int(y2 as int);
    lemma_dec_int_no_ws(y2 as int);
    assert(s =~= "drag "@ + rest);
    assert(s.last() == dec_int(y2 as int).last());
    lemma_trim_fixed(s);
    assert(s[0] != "click "@[0]);
    assert(s[1] != "doubleclick "@[1]);
    assert(s[0] != "move "@[0]);
    assert(s[0] != "mousedown "@[0]);
    assert(s[0] != "mouseup "@[0]);
    lemma_after_prefix("drag "@, rest);
    lemma_four_ints_dec(x1, y1, x2, y2);
}

proof fn lemma_scroll_text(delta: i32)
    ensures
        spec_parse_instruction(documented_text(ActionView::Scroll { delta })) == Ok::<
            ActionView,
            Seq<char>,
        >(ActionView::Scroll { delta }),
{
    reveal_strlit("click ");
    reveal_strlit("doubleclick ");
    reveal_strlit("move ");
    reveal_strlit("mousedown ");
    reveal_strlit("mouseup ");
    reveal_strlit("drag ");
    reveal_strlit("scroll ");
    reveal_strlit(" ");
    let s = documented_text(ActionView::Scroll { delta });
    let rest = dec_int(delta as int);
    lemma_dec_int_no_ws(delta as int);
    assert(s.last() == rest.last());
    lemma_trim_fixed(s);
    lemma_trim_fixed(rest);
    assert(s[0] != "click "@[0]);
    assert(s[0] != "doubleclick "@[0]);
    assert(s[0] != "move "@[0]);
    assert(s[0] != "mousedown "@[0]);
    assert(s[0] != "mouseup "@[0]);
    assert(s[0] != "drag "@[0]);
    lemma_after_prefix("scroll "@, rest);
    lemma_parse_i32_dec(delta);
}

proof fn lemma_type_text_text(text: Seq<char>)
    requires
        tidy(text),
    ensures
        spec_parse_instruction(documented_text(ActionView::TypeText { text })) == Ok::<
            ActionView,
            Seq<char>,
        >(ActionView::TypeText { text }),
{
    reveal_strlit("type: ");
    reveal_strlit("click ");
    reveal_strlit("doubleclick ");
    reveal_strlit("move ");
    reveal_strlit("mousedown ");
    reveal_strlit("mouseup ");
    reveal_strlit("drag ");
    reveal_strlit("scroll ");
    reveal_strlit("type:");
    reveal_strlit(" ");
    let s = documented_text(ActionView::TypeText { text });
    assert(s =~= "type:"@ + (" "@ + text));
    assert(s.last() == text.last());
    lemma_trim_fixed(s);
    lemma_tidy_trim(text);
    assert(s[0] != "click "@[0]);
    assert(s[0] != "doubleclick "@[0]);
    assert(s[0] != "move "@[0]);
    assert(s[0] != "mousedown "@[0]);
    assert(s[0] != "mouseup "@[0]);
    assert(s[0] != "drag "@[0]);
    assert(s[0] != "scroll "@[0]);
    lemma_after_prefix("type:"@, " "@ + text);
}

proof fn lemma_key_press_text(key: Seq<char>)
    requires
        tidy(key),
    ensures
        spec_parse_instruction(documented_text(ActionView::KeyPress { key })) == Ok::<
            ActionView,
            Seq<char>,
        >(ActionView::KeyPress { key }),
{
    reveal_strlit("key: ");
    reveal_strlit("click ");
    reveal_strlit("doubleclick ");
    reveal_strlit("move ");
    reveal_strlit("mousedown ");
    reveal_strlit("mouseup ");
    reveal_strlit("drag ");
    reveal_strlit("scroll ");
    reveal_strlit("type:");
    reveal_strlit("key:");
    reveal_strlit(" ");
    let s = documented_text(ActionView::KeyPress { key });
    assert(s =~= "key:"@ + (" "@ + key));
    assert(s.last() == key.last());
    lemma_trim_fixed(s);
    lemma_tidy_trim(key);
    assert(s[0] != "click "@[0]);
    assert(s[0] != "doubleclick "@[0]);
    assert(s[0] != "move "@[0]);
    assert(s[0] != "mousedown "@[0]);
    assert(s[0] != "mouseup "@[0]);
    assert(s[0] != "drag "@[0]);
    assert(s[0] != "scroll "@[0]);
    assert(s[0] != "type:"@[0]);
    lemma_after_prefix("key:"@, " "@ + key);
}

proof fn lemma_hotkey_text(combo: Seq<char>)
    requires
        tidy(combo),
    ensures
        spec_parse_instruction(documented_text(ActionView::Hotkey { combo })) == Ok::<
            ActionView,
            Seq<char>,
        >(ActionView::Hotkey { combo }),
{
    reveal_strlit("hotkey: ");
    reveal_strlit("click ");
    reveal_strlit("doubleclick ");
    reveal_strlit("move ");
    reveal_strlit("mousedown ");
    reveal_strlit("mouseup ");
    reveal_strlit("drag ");
    reveal_strlit("scroll ");
    reveal_strlit("type:");
    reveal_strlit("key:");
    reveal_strlit("hotkey:");
    reveal_strlit(" ");
    let s = documented_text(ActionView::Hotkey { combo });
    assert(s =~= "hotkey:"@ + (" "@ + combo));
    assert(s.last() == combo.last());
    lemma_trim_fixed(s);
    lemma_tidy_trim(combo);
    assert(s[0] != "click "@[0]);
    assert(s[0] != "doubleclick "@[0]);
    assert(s[0] != "move "@[0]);
    assert(s[0] != "mousedown "@[0]);
    assert(s[0] != "mouseup "@[0]);
    assert(s[0] != "drag "@[0]);
    assert(s[0] != "scroll "@[0]);
    assert(s[0] != "type:"@[0]);
    assert(s[0] != "key:"@[0]);
    lemma_after_prefix("hotkey:"@, " "@ + combo);
}

proof fn lemma_screenshot_text(path: Seq<char>)
    requires
        tidy(path),
    ensures
        spec_parse_instruction(documented_text(ActionView::Screenshot { path })) == Ok::<
            ActionView,
            Seq<char>,
        >(ActionView::Screenshot { path }),
{
    reveal_strlit("click ");
    reveal_strlit("doubleclick ");
    reveal_strlit("move ");
    reveal_strlit("mousedown ");
    reveal_strlit("mouseup ");
    reveal_strlit("drag ");
    reveal_strlit("scroll ");
    reveal_strlit("type:");
    reveal_strlit("key:");
    reveal_strlit("hotkey:");
    reveal_strlit("screenshot ");
    reveal_strlit(" ");
    let s = documented_text(ActionView::Screenshot { path });
    assert(s.last() == path.last());
    lemma_trim_fixed(s);
    lemma_trim_fixed(path);
    assert(s[0] != "click "@[0]);
    assert(s[0] != "doubleclick "@[0]);
    assert(s[0] != "move "@[0]);
    assert(s[0] != "mousedown "@[0]);
    assert(s[0] != "mouseup "@[0]);
    assert(s[0] != "drag "@[0]);
    assert(s[3] != "scroll "@[3]);
    assert(s[0] != "type:"@[0]);
    assert(s[0] != "key:"@[0]);
    assert(s[0] != "hotkey:"@[0]);
    lemma_after_prefix("screenshot "@, path);
}

proof fn lemma_wait_text(ms: u64)
    ensures
        spec_parse_instruction(documented_text(ActionView::Wait { ms })) == Ok::<
            ActionView,
            Seq<char>,
        >(ActionView::Wait { ms }),
{
    reveal_strlit("click ");
    reveal_strlit("doubleclick ");
    reveal_strlit("move ");
    reveal_strlit("mousedown ");
    reveal_strlit("mouseup ");
    reveal_strlit("drag ");
    reveal_strlit("scroll ");
    reveal_strlit("type:");
    reveal_strlit("key:");
    reveal_strlit("hotkey:");
    reveal_strlit("screenshot ");
    reveal_strlit("wait ");
    reveal_strlit(" ");
    let s = documented_text(ActionView::Wait { ms });
    let rest = dec_nat(ms as nat);
    lemma_dec_nat_digits(ms as nat);
    assert(dec_int(ms as int) == rest);
    lemma_dec_int_no_ws(ms as int);
    assert(s.last() == rest.last());
    lemma_trim_fixed(s);
    lemma_trim_fixed(rest);
    assert(s[0] != "click "@[0]);
    assert(s[0] != "doubleclick "@[0]);
    assert(s[0] != "move "@[0]);
    assert(s[0] != "mousedown "@[0]);
    assert(s[0] != "mouseup "@[0]);
    assert(s[0] != "drag "@[0]);
    assert(s[0] != "scroll "@[0]);
    assert(s[0] != "type:"@[0]);
    assert(s[0] != "key:"@[0]);
    assert(s[0] != "hotkey:"@[0]);
    assert(s[0] != "screenshot "@[0]);
    lemma_after_prefix("wait "@, rest);
    lemma_parse_u64_dec(ms);
}

proof fn lemma_noop_text()
    ensures
        spec_parse_instruction(documented_text(ActionView::Noop)) == Ok::<
            ActionView,
            Seq<char>,
        >(ActionView::Noop),
{
    reveal_strlit("click ");
    reveal_strlit("doubleclick ");
    reveal_strlit("move ");
    reveal_strlit("mousedown ");
    reveal_strlit("mouseup ");
    reveal_strlit("drag ");
    reveal_strlit("scroll ");
    reveal_strlit("type:");
    reveal_strlit("key:");
    reveal_strlit("hotkey:");
    reveal_strlit("screenshot ");
    reveal_strlit("wait ");
    reveal_strlit("noop");
    reveal_strlit(" ");
    let s = documented_text(ActionView::Noop);
    lemma_trim_fixed(s);
    assert(s[0] != "click "@[0]);
    assert(s[0] != "doubleclick "@[0]);
    assert(s[0] != "move "@[0]);
    assert(s[0] != "mousedown "@[0]);
    assert(s[0] != "mouseup "@[0]);
    assert(s[0] != "drag "@[0]);
    assert(s[0] != "scroll "@[0]);
    assert(s[0] != "type:"@[0]);
    assert(s[0] != "key:"@[0]);
    assert(s[0] != "hotkey:"@[0]);
    assert(s[0] != "screenshot "@[0]);
    assert(s[0] != "wait "@[0]);
    assert(eq_ignore_case(s, "noop"@));
}

/// Each action that the command sheet has a syntax for, written as the sheet documents it, is
/// read back as that action.
pub proof fn lemma_documented_text_parses(a: ActionView)
    requires
        documentable(a),
    ensures
        spec_parse_instruction(documented_text(a)) == Ok::<ActionView, Seq<char>>(a),
{
    match a {
        ActionView::Click { x, y } => lemma_click_text(x, y),
        ActionView::DoubleClick { x, y } => lemma_double_click_text(x, y),
        ActionView::Move { x, y } => lemma_move_text(x, y),
        ActionView::MouseDown { x, y } => lemma_mouse_down_text(x, y),
        ActionView::MouseUp { x, y } => lemma_mouse_up_text(x, y),
        ActionView::Drag { x1, y1, x2, y2 } => lemma_drag_text(x1, y1, x2, y2),
        ActionView::Scroll { delta } => lemma_scroll_text(delta),
        ActionView::TypeText { text } => lemma_type_text_text(text),
        ActionView::KeyPress { key } => lemma_key_press_text(key),
        ActionView::Hotkey { combo } => lemma_hotkey_text(combo),
        ActionView::Screenshot { path } => lemma_screenshot_text(path),
        ActionView::Wait { ms } => lemma_wait_text(ms),
        ActionView::Noop => lemma_noop_text(),
        ActionView::Dispatch { .. } => {},
    }
}

} // verus!
