//! The global hotkey: parsing its textual form ("Ctrl+Alt+W") into the
//! modifier flags and virtual-key code that the system registers, and
//! recognising the message it raises.
//!
//! A hotkey is split on `+`; each part is trimmed of white space and read as a
//! modifier (`Alt`, `Ctrl`/`Control`, `Shift`, `Win`/`Windows`/`Super`), a
//! single ASCII character (its upper-case code), a named key (`Space`, `Tab`,
//! `Enter`/`Return`, `Esc`/`Escape`, `F1`..`F12`), or an unknown part, which
//! is ignored.  Modifiers accumulate; the last key wins.  When no part names a
//! key, the hotkey falls back to `Ctrl+Shift+W`.
use vstd::prelude::*;
use crate::text::{
    ascii_upper, ascii_upper_code, chars_equal, chars_of, is_white_space, lemma_ascii_case_codes,
    trim, trim_chars, trim_end, trim_start,
};
use crate::vk::{
    MOD_ALT, MOD_CONTROL, MOD_SHIFT, MOD_WIN, VK_ESCAPE, VK_F1, VK_F10, VK_RETURN, VK_SPACE,
    VK_TAB,
};

verus! {

/// Identifier under which the global hotkey is registered.
pub const HOTKEY_ID: i32 = 1;

/// Modifier flags of the fallback hotkey (`Ctrl+Shift`).
pub const FALLBACK_MODIFIERS: u32 = 0x0006;

/// Virtual-key code of the fallback hotkey (`W`).
pub const FALLBACK_VK: u32 = 0x57;

/// What the system is asked to register: modifier flags and a virtual-key
/// code.
#[derive(Debug, Clone, Copy, PartialEq, Eq, Structural)]
pub struct HotkeyBinding {
    pub modifiers: u32,
    pub vk: u32,
}

/// The meaning of one `+`-separated part of a hotkey.
/// What was not understood in a hotkey text: the trimmed parts that name
/// neither a modifier nor a key, and whether the fallback hotkey is used
/// because no part names a key.
#[derive(Debug, Clone)]
pub struct HotkeyDiagnostics {
    pub unknown_parts: Vec<Vec<char>>,
    pub fell_back: bool,
}

#[derive(Debug, Clone, Copy, PartialEq, Eq, Structural)]
pub enum HotkeyPart {
    Modifier(u32),
    Key(u32),
    Unknown,
}

// ── Definitions ─────────────────────────────────────────────────────

/// The parts of `s` between `+` signs, in order (`"a+"` has the parts `"a"`
/// and `""`; every text has at least one part).
pub open spec fn split_plus(s: Seq<char>) -> Seq<Seq<char>>
    decreases s.len(),
{
    if s.len() == 0 {
        seq![Seq::<char>::empty()]
    } else {
        let prev = split_plus(s.drop_last());
        if s.last() == '+' {
            prev.push(Seq::<char>::empty())
        } else {
            prev.update(prev.len() - 1, prev.last().push(s.last()))
        }
    }
}

/// `F1`..`F12`: the code of the function key a part names.
pub open spec fn function_key(t: Seq<char>) -> Option<u32> {
    if t.len() == 2 && t[0] == 'F' && 0x31 <= (t[1] as u32) <= 0x39 {
        Some((VK_F1 + ((t[1] as u32) - 0x31)) as u32)
    } else if t.len() == 3 && t[0] == 'F' && t[1] == '1' && 0x30 <= (t[2] as u32) <= 0x32 {
        Some((VK_F10 + ((t[2] as u32) - 0x30)) as u32)
    } else {
        None
    }
}

/// The meaning of a trimmed part.
pub open spec fn classify(t: Seq<char>) -> HotkeyPart {
    if t == seq!['A', 'l', 't'] {
        HotkeyPart::Modifier(MOD_ALT)
    } else if t == seq!['C', 't', 'r', 'l'] || t == seq!['C', 'o', 'n', 't', 'r', 'o', 'l'] {
        HotkeyPart::Modifier(MOD_CONTROL)
    } else if t == seq!['S', 'h', 'i', 'f', 't'] {
        HotkeyPart::Modifier(MOD_SHIFT)
    } else if t == seq!['W', 'i', 'n'] || t == seq!['W', 'i', 'n', 'd', 'o', 'w', 's'] || t
        == seq!['S', 'u', 'p', 'e', 'r'] {
        HotkeyPart::Modifier(MOD_WIN)
    } else if t.len() == 1 && (t[0] as u32) < 0x80 {
        HotkeyPart::Key(ascii_upper(t[0]))
    } else if t == seq!['S', 'p', 'a', 'c', 'e'] {
        HotkeyPart::Key(VK_SPACE)
    } else if t == seq!['T', 'a', 'b'] {
        HotkeyPart::Key(VK_TAB)
    } else if t == seq!['E', 'n', 't', 'e', 'r'] || t == seq!['R', 'e', 't', 'u', 'r', 'n'] {
        HotkeyPart::Key(VK_RETURN)
    } else if t == seq!['E', 's', 'c'] || t == seq!['E', 's', 'c', 'a', 'p', 'e'] {
        HotkeyPart::Key(VK_ESCAPE)
    } else if function_key(t) is Some {
        HotkeyPart::Key(function_key(t)->0)
    } else {
        HotkeyPart::Unknown
    }
}

/// The effect of one part on the accumulated (modifiers, key) pair.
pub open spec fn apply_part(acc: (u32, u32), p: HotkeyPart) -> (u32, u32) {
    match p {
        HotkeyPart::Modifier(m) => (acc.0 | m, acc.1),
        HotkeyPart::Key(k) => (acc.0, k),
        HotkeyPart::Unknown => acc,
    }
}

/// The (modifiers, key) pair that a list of raw parts accumulates, each part
/// trimmed first; the key is 0 while no part has named one.
pub open spec fn accumulate(parts: Seq<Seq<char>>) -> (u32, u32)
    decreases parts.len(),
{
    if parts.len() == 0 {
        (0u32, 0u32)
    } else {
        apply_part(accumulate(parts.drop_last()), classify(trim(parts.last())))
    }
}

/// The trimmed parts, in order, that name neither a modifier nor a key.
pub open spec fn unknown_parts(parts: Seq<Seq<char>>) -> Seq<Seq<char>>
    decreases parts.len(),
{
    if parts.len() == 0 {
        Seq::empty()
    } else {
        let prev = unknown_parts(parts.drop_last());
        if classify(trim(parts.last())) is Unknown {
            prev.push(trim(parts.last()))
        } else {
            prev
        }
    }
}

/// No part of the hotkey text `s` names a key, so the fallback is used.
pub open spec fn falls_back(s: Seq<char>) -> bool {
    accumulate(split_plus(s)).1 == 0
}

/// The binding that the hotkey text `s` asks for.
pub open spec fn hotkey_binding(s: Seq<char>) -> HotkeyBinding {
    let acc = accumulate(split_plus(s));
    if acc.1 == 0 {
        HotkeyBinding { modifiers: FALLBACK_MODIFIERS, vk: FALLBACK_VK }
    } else {
        HotkeyBinding { modifiers: acc.0, vk: acc.1 }
    }
}

// ── Lemmas ──────────────────────────────────────────────────────────

proof fn lemma_split_plus_nonempty(s: Seq<char>)
    ensures
        split_plus(s).len() >= 1,
    decreases s.len(),
{
    if s.len() > 0 {
        lemma_split_plus_nonempty(s.drop_last());
    }
}

proof fn lemma_or_stays_small(a: u32, b: u32)
    requires
        a <= 15,
        b <= 15,
    ensures
        a | b <= 15,
{
    assert(a <= 15 && b <= 15 ==> a | b <= 15) by (bit_vector);
}

proof fn lemma_classify_modifier_small(t: Seq<char>)
    ensures
        classify(t) matches HotkeyPart::Modifier(m) ==> m <= 15,
{
}

proof fn lemma_accumulate_small(parts: Seq<Seq<char>>)
    ensures
        accumulate(parts).0 <= 15,
    decreases parts.len(),
{
    if parts.len() > 0 {
        lemma_accumulate_small(parts.drop_last());
        let t = trim(parts.last());
        lemma_classify_modifier_small(t);
        if let HotkeyPart::Modifier(m) = classify(t) {
            lemma_or_stays_small(accumulate(parts.drop_last()).0, m);
        }
    }
}

/// Whatever its text, a hotkey always registers some key (never code 0), and
/// its modifiers are a combination of the four modifier flags.
pub proof fn lemma_hotkey_always_has_key(s: Seq<char>)
    ensures
        hotkey_binding(s).vk != 0,
        hotkey_binding(s).modifiers <= 15,
{
    lemma_accumulate_small(split_plus(s));
}


proof fn lemma_accumulate_congruent(pa: Seq<Seq<char>>, pb: Seq<Seq<char>>)
    requires
        pa.len() == pb.len(),
        forall|i: int| 0 <= i < pa.len() ==> classify(trim(#[trigger] pa[i])) == classify(trim(pb[i])),
    ensures
        accumulate(pa) == accumulate(pb),
    decreases pa.len(),
{
    if pa.len() > 0 {
        let qa = pa.drop_last();
        let qb = pb.drop_last();
        assert forall|i: int| 0 <= i < qa.len() implies classify(trim(#[trigger] qa[i])) == classify(
            trim(qb[i]),
        ) by {
            assert(qa[i] == pa[i]);
            assert(qb[i] == pb[i]);
        }
        lemma_accumulate_congruent(qa, qb);
        assert(pa.last() == pa[pa.len() - 1]);
    }
}

/// Hotkey texts whose parts, once trimmed, mean the same thing part by part
/// ask for the same binding: white space around `+` and differently written
/// synonyms do not matter.
pub proof fn lemma_same_meaning_same_binding(a: Seq<char>, b: Seq<char>)
    requires
        split_plus(a).len() == split_plus(b).len(),
        forall|i: int|
            0 <= i < split_plus(a).len() ==> classify(trim(#[trigger] split_plus(a)[i])) == classify(
                trim(split_plus(b)[i]),
            ),
    ensures
        hotkey_binding(a) == hotkey_binding(b),
{
    lemma_accumulate_congruent(split_plus(a), split_plus(b));
}

proof fn lemma_split_plus_trailing_part(t: Seq<char>, c: char)
    requires
        c != '+',
    ensures
        split_plus(t + seq!['+', c]) == split_plus(t).push(seq![c]),
{
    let plus = t.push('+');
    assert((t + seq!['+', c]).drop_last() =~= plus);
    assert(plus.drop_last() =~= t);
    let prev = split_plus(plus);
    assert(prev == split_plus(t).push(Seq::<char>::empty()));
    assert(Seq::<char>::empty().push(c) =~= seq![c]);
    assert(prev.update(prev.len() - 1, prev.last().push(c)) =~= split_plus(t).push(seq![c]));
}

/// A hotkey text that ends in `+` and an ASCII letter registers that
/// letter's upper-case virtual-key code (the letter's code, less 32 for a
/// lower-case letter), with the modifiers that the text before it names;
/// so `Ctrl+a` and `Ctrl+A` both register `A`.
pub proof fn lemma_trailing_letter_key(t: Seq<char>, c: char)
    requires
        0x41 <= (c as u32) <= 0x5A || 0x61 <= (c as u32) <= 0x7A,
    ensures
        hotkey_binding(t + seq!['+', c]) == (HotkeyBinding {
            modifiers: accumulate(split_plus(t)).0,
            vk: if (c as u32) >= 0x61 {
                ((c as u32) - 32) as u32
            } else {
                c as u32
            },
        }),
{
    lemma_split_plus_trailing_part(t, c);
    let parts = split_plus(t).push(seq![c]);
    assert(parts.drop_last() =~= split_plus(t));
    assert(parts.last() == seq![c]);
    let single = seq![c];
    assert(single[0] == c);
    assert(!is_white_space(c));
    assert(trim_start(single) == single);
    assert(trim_end(single) == single);
    lemma_classify_single(single);
    lemma_ascii_case_codes(c);
}

/// An ASCII lower-case letter on its own is the key of its upper-case
/// letter, the code 32 below.
pub proof fn lemma_lower_letter_is_upper_key(c: char)
    requires
        0x61 <= (c as u32) <= 0x7A,
    ensures
        classify(seq![c]) == HotkeyPart::Key(((c as u32) - 32) as u32),
{
    lemma_classify_single(seq![c]);
    lemma_ascii_case_codes(c);
}

/// A one-character ASCII part means the same key whatever its letter case.
pub proof fn lemma_letter_case_ignored(c1: char, c2: char)
    requires
        (c1 as u32) < 0x80,
        (c2 as u32) < 0x80,
        ascii_upper(c1) == ascii_upper(c2),
    ensures
        classify(seq![c1]) == classify(seq![c2]),
{
    lemma_classify_single(seq![c1]);
    lemma_classify_single(seq![c2]);
}

proof fn lemma_classify_single(t: Seq<char>)
    requires
        t.len() == 1,
        (t[0] as u32) < 0x80,
    ensures
        classify(t) == HotkeyPart::Key(ascii_upper(t[0])),
{
    assert(seq!['A', 'l', 't'].len() == 3);
    assert(seq!['C', 't', 'r', 'l'].len() == 4);
    assert(seq!['C', 'o', 'n', 't', 'r', 'o', 'l'].len() == 7);
    assert(seq!['S', 'h', 'i', 'f', 't'].len() == 5);
    assert(seq!['W', 'i', 'n'].len() == 3);
    assert(seq!['W', 'i', 'n', 'd', 'o', 'w', 's'].len() == 7);
    assert(seq!['S', 'u', 'p', 'e', 'r'].len() == 5);
}

proof fn lemma_apply_commutes(acc: (u32, u32), p: HotkeyPart, q: HotkeyPart)
    requires
        !(p is Key && q is Key),
    ensures
        apply_part(apply_part(acc, p), q) == apply_part(apply_part(acc, q), p),
{
    if let HotkeyPart::Modifier(m1) = p {
        if let HotkeyPart::Modifier(m2) = q {
            let a = acc.0;
            assert((a | m1) | m2 == (a | m2) | m1) by (bit_vector);
        }
    }
}

proof fn lemma_accumulate_swap(ps: Seq<Seq<char>>, qs: Seq<Seq<char>>, i: int)
    requires
        0 <= i < ps.len() - 1,
        qs == ps.update(i, ps[i + 1]).update(i + 1, ps[i]),
        !(classify(trim(ps[i])) is Key && classify(trim(ps[i + 1])) is Key),
    ensures
        accumulate(ps) == accumulate(qs),
    decreases ps.len(),
{
    let n = ps.len();
    if i + 1 < n - 1 {
        let pd = ps.drop_last();
        let qd = qs.drop_last();
        assert(qd =~= pd.update(i, pd[i + 1]).update(i + 1, pd[i]));
        lemma_accumulate_swap(pd, qd, i);
        assert(ps.last() == qs.last());
    } else {
        let base = ps.drop_last().drop_last();
        assert(qs.drop_last().drop_last() =~= base);
        let x = classify(trim(ps[i]));
        let y = classify(trim(ps[i + 1]));
        assert(ps.drop_last().last() == ps[i]);
        assert(qs.drop_last().last() == ps[i + 1]);
        assert(qs.last() == ps[i]);
        assert(accumulate(ps.drop_last()) == apply_part(accumulate(base), x));
        assert(accumulate(qs.drop_last()) == apply_part(accumulate(base), y));
        lemma_apply_commutes(accumulate(base), x, y);
    }
}

/// Swapping two neighbouring parts of a hotkey text, unless both name keys,
/// does not change the binding: modifiers may be written in any order, and
/// before or after the key.
pub proof fn lemma_modifier_order_ignored(a: Seq<char>, b: Seq<char>, i: int)
    requires
        0 <= i < split_plus(a).len() - 1,
        split_plus(b) == split_plus(a).update(i, split_plus(a)[i + 1]).update(
            i + 1,
            split_plus(a)[i],
        ),
        !(classify(trim(split_plus(a)[i])) is Key && classify(trim(split_plus(a)[i + 1])) is Key),
    ensures
        hotkey_binding(a) == hotkey_binding(b),
{
    lemma_accumulate_swap(split_plus(a), split_plus(b), i);
}

// ── Executable parsing ──────────────────────────────────────────────

/// The meaning of a trimmed part.
pub fn classify_part(t: &[char]) -> (p: HotkeyPart)
    ensures
        p == classify(t@),
{
    if chars_equal(t, &['A', 'l', 't']) {
        HotkeyPart::Modifier(MOD_ALT)
    } else if chars_equal(t, &['C', 't', 'r', 'l']) || chars_equal(
        t,
        &['C', 'o', 'n', 't', 'r', 'o', 'l'],
    ) {
        HotkeyPart::Modifier(MOD_CONTROL)
    } else if chars_equal(t, &['S', 'h', 'i', 'f', 't']) {
        HotkeyPart::Modifier(MOD_SHIFT)
    } else if chars_equal(t, &['W', 'i', 'n']) || chars_equal(
        t,
        &['W', 'i', 'n', 'd', 'o', 'w', 's'],
    ) || chars_equal(t, &['S', 'u', 'p', 'e', 'r']) {
        HotkeyPart::Modifier(MOD_WIN)
    } else if t.len() == 1 && (t[0] as u32) < 0x80 {
        HotkeyPart::Key(ascii_upper_code(t[0]))
    } else if chars_equal(t, &['S', 'p', 'a', 'c', 'e']) {
        HotkeyPart::Key(VK_SPACE)
    } else if chars_equal(t, &['T', 'a', 'b']) {
        HotkeyPart::Key(VK_TAB)
    } else if chars_equal(t, &['E', 'n', 't', 'e', 'r']) || chars_equal(
        t,
        &['R', 'e', 't', 'u', 'r', 'n'],
    ) {
        HotkeyPart::Key(VK_RETURN)
    } else if chars_equal(t, &['E', 's', 'c']) || chars_equal(t, &['E', 's', 'c', 'a', 'p', 'e']) {
        HotkeyPart::Key(VK_ESCAPE)
    } else if t.len() == 2 && t[0] == 'F' && 0x31 <= (t[1] as u32) && (t[1] as u32) <= 0x39 {
        HotkeyPart::Key(VK_F1 + ((t[1] as u32) - 0x31))
    } else if t.len() == 3 && t[0] == 'F' && t[1] == '1' && 0x30 <= (t[2] as u32) && (t[2] as u32)
        <= 0x32 {
        HotkeyPart::Key(VK_F10 + ((t[2] as u32) - 0x30))
    } else {
        HotkeyPart::Unknown
    }
}

/// The effect of one part on the accumulated modifiers and key.
fn apply(mods: u32, vk: u32, p: HotkeyPart) -> (r: (u32, u32))
    ensures
        r == apply_part((mods, vk), p),
{
    match p {
        HotkeyPart::Modifier(m) => (mods | m, vk),
        HotkeyPart::Key(k) => (mods, k),
        HotkeyPart::Unknown => (mods, vk),
    }
}

/// Reads every part of the hotkey text `s`: the accumulated modifiers and key
/// (0 when no part names a key), and the trimmed parts that were not
/// understood.
fn scan_hotkey(s: &str) -> (r: (u32, u32, Vec<Vec<char>>))
    ensures
        (r.0, r.1) == accumulate(split_plus(s@)),
        r.2.deep_view() == unknown_parts(split_plus(s@)),
{
    let chars = chars_of(s);
    let mut mods: u32 = 0;
    let mut vk: u32 = 0;
    let mut unknown: Vec<Vec<char>> = Vec::new();
    let mut cur: Vec<char> = Vec::new();
    let mut i: usize = 0;
    proof {
        assert(chars@.take(0) =~= Seq::<char>::empty());
        assert(unknown.deep_view() =~= Seq::<Seq<char>>::empty());
    }
    while i < chars.len()
        invariant
            i <= chars@.len(),
            split_plus(chars@.take(i as int)).len() >= 1,
            (mods, vk) == accumulate(split_plus(chars@.take(i as int)).drop_last()),
            unknown.deep_view() == unknown_parts(split_plus(chars@.take(i as int)).drop_last()),
            cur@ == split_plus(chars@.take(i as int)).last(),
        decreases chars.len() - i,
    {
        let c = chars[i];
        let ghost prev = split_plus(chars@.take(i as int));
        proof {
            let next = chars@.take(i + 1);
            assert(next.drop_last() =~= chars@.take(i as int));
            assert(next.last() == c);
            lemma_split_plus_nonempty(chars@.take(i as int));
        }
        if c == '+' {
            let t = trim_chars(cur.as_slice());
            let p = classify_part(t.as_slice());
            let r = apply(mods, vk, p);
            mods = r.0;
            vk = r.1;
            let ghost before = unknown.deep_view();
            let ghost old_v = unknown@;
            let ghost tv = t@;
            proof {
                assert(t.deep_view() =~= tv);
            }
            if let HotkeyPart::Unknown = p {
                unknown.push(t);
                proof {
                    assert forall|k: int| 0 <= k < old_v.len() implies unknown.deep_view()[k]
                        == before[k] by {
                        assert(unknown@[k] == old_v[k]);
                    }
                    assert(unknown@[old_v.len() as int].deep_view() == tv);
                    assert(unknown.deep_view() =~= before.push(tv));
                }
            }
            cur = Vec::new();
            proof {
                let next = split_plus(chars@.take(i + 1));
                assert(next == prev.push(Seq::<char>::empty()));
                assert(next.drop_last() =~= prev);
            }
        } else {
            cur.push(c);
            proof {
                let next = split_plus(chars@.take(i + 1));
                assert(next.drop_last() =~= prev.drop_last());
            }
        }
        i += 1;
    }
    proof {
        assert(chars@.take(chars@.len() as int) =~= chars@);
    }
    let t = trim_chars(cur.as_slice());
    let p = classify_part(t.as_slice());
    let r = apply(mods, vk, p);
    let ghost before = unknown.deep_view();
    let ghost old_v = unknown@;
    let ghost tv = t@;
    proof {
        assert(t.deep_view() =~= tv);
    }
    if let HotkeyPart::Unknown = p {
        unknown.push(t);
        proof {
            assert forall|k: int| 0 <= k < old_v.len() implies unknown.deep_view()[k] == before[k] by {
                assert(unknown@[k] == old_v[k]);
            }
            assert(unknown@[old_v.len() as int].deep_view() == tv);
            assert(unknown.deep_view() =~= before.push(tv));
        }
    }
    (r.0, r.1, unknown)
}

/// Parses the textual form of a hotkey (such as `"Ctrl+Alt+W"`) into the
/// modifier flags and virtual-key code to register.  Unknown parts are
/// ignored; when no part names a key the result is `Ctrl+Shift+W`.
pub fn parse_hotkey(s: &str) -> (b: HotkeyBinding)
    ensures
        b == hotkey_binding(s@),
        b.vk != 0,
        b.modifiers <= 15,
{
    let r = scan_hotkey(s);
    proof {
        lemma_hotkey_always_has_key(s@);
    }
    if r.1 == 0 {
        HotkeyBinding { modifiers: FALLBACK_MODIFIERS, vk: FALLBACK_VK }
    } else {
        HotkeyBinding { modifiers: r.0, vk: r.1 }
    }
}

/// What `parse_hotkey` could not understand in `s`: the trimmed parts that
/// name neither a modifier nor a key, in order, and whether the fallback
/// hotkey is used.
pub fn hotkey_diagnostics(s: &str) -> (d: HotkeyDiagnostics)
    ensures
        d.unknown_parts.deep_view() == unknown_parts(split_plus(s@)),
        d.fell_back == falls_back(s@),
{
    let r = scan_hotkey(s);
    HotkeyDiagnostics { unknown_parts: r.2, fell_back: r.1 == 0 }
}

/// Whether a hotkey message was raised by the registered hotkey; only one
/// hotkey is registered, so only the identifier is compared.
pub fn is_hotkey_msg(wparam: usize, lparam: isize) -> (b: bool)
    ensures
        b == (wparam == HOTKEY_ID as usize),
{
    wparam == HOTKEY_ID as usize
}

} // verus!
