//! Key bindings written as text, such as `ctrl-q` or `Ä`.
use vstd::prelude::*;
use crate::config::AgencyConfig;
use crate::split::{is_white_space, is_white_space_exec, trim_spec, trim_str};
use crate::task::copy_chars;
use crate::text::{chars_of, push_str_chars, string_from_chars};

verus! {

/// The modifier keys of a binding.
#[derive(Clone, Copy, Debug, PartialEq, Eq, Structural)]
pub struct Mods {
    pub ctrl: bool,
    pub alt: bool,
    pub shift: bool,
    pub sup: bool,
}

impl Mods {
    /// No modifier.
    pub fn none() -> (m: Self)
        ensures
            m == (Mods { ctrl: false, alt: false, shift: false, sup: false }),
    {
        Mods { ctrl: false, alt: false, shift: false, sup: false }
    }
}

/// A key with modifiers.
#[derive(Clone, Copy, Debug, PartialEq, Eq, Structural)]
pub struct Keybinding {
    pub mods: Mods,
    pub key: char,
}

impl Keybinding {
    /// Whether a key event is this binding.
    pub fn matches(&self, event_mods: Mods, event_key: char) -> (r: bool)
        ensures
            r == (self.mods == event_mods && self.key == event_key),
    {
        self.mods == event_mods && self.key == event_key
    }
}

/// `char::is_uppercase`, the Unicode `Uppercase` property.
pub uninterp spec fn is_uppercase(c: char) -> bool;

/// `char::is_uppercase`. The property's table is Unicode's; ASCII capitals
/// have it and other ASCII characters do not.
#[verifier::external_body]
fn char_is_uppercase(c: char) -> (r: bool)
    ensures
        r == is_uppercase(c),
        ('A' <= c && c <= 'Z') ==> r,
        (c < '\u{80}' && !('A' <= c && c <= 'Z')) ==> !r,
{
    c.is_uppercase()
}

/// Why a binding string was refused.
#[derive(Debug, PartialEq, Eq)]
pub enum BindingError {
    Empty,
    Whitespace,
    /// A token before the last `-` that is not a modifier.
    InvalidModifier(String),
    MissingKey,
    MultiCharKey,
    /// The configuration has no keybindings section.
    MissingSection,
    /// The detach binding is blank.
    EmptyDetach,
}

impl BindingError {
    /// The error message for binding string `s`.
    pub fn message(&self, s: &str) -> (m: String)
        ensures
            *self == BindingError::Empty ==> m@ == "empty keybinding string"@,
            *self == BindingError::Whitespace ==> m@ == "whitespace not allowed in keybinding: '"@ + s@ + "'"@,
            *self == BindingError::MissingKey ==> m@ == "missing key in '"@ + s@ + "'"@,
            *self == BindingError::MultiCharKey ==> m@ == "key must be a single character in '"@ + s@ + "'"@,
            *self == BindingError::MissingSection ==> m@ == "missing [keybindings] section in config"@,
            *self == BindingError::EmptyDetach ==> m@ == "keybindings.detach must not be empty"@,
            self matches BindingError::InvalidModifier(t) ==> m@ == "invalid modifier '"@ + t@ + "' in '"@ + s@ + "'"@,
    {
        let mut out: Vec<char> = Vec::new();
        match self {
            BindingError::Empty => return "empty keybinding string".to_string(),
            BindingError::MissingSection => return "missing [keybindings] section in config".to_string(),
            BindingError::EmptyDetach => return "keybindings.detach must not be empty".to_string(),
            BindingError::Whitespace => push_str_chars(&mut out, "whitespace not allowed in keybinding: '"),
            BindingError::MissingKey => push_str_chars(&mut out, "missing key in '"),
            BindingError::MultiCharKey => push_str_chars(&mut out, "key must be a single character in '"),
            BindingError::InvalidModifier(t) => {
                push_str_chars(&mut out, "invalid modifier '");
                push_str_chars(&mut out, t.as_str());
                push_str_chars(&mut out, "' in '");
            },
        }
        push_str_chars(&mut out, s);
        push_str_chars(&mut out, "'");
        string_from_chars(out.as_slice())
    }
}

/// The modifier a token names, if any (lower or upper case).
pub open spec fn modifier_spec(tok: Seq<char>) -> Option<Mods> {
    let none = Mods { ctrl: false, alt: false, shift: false, sup: false };
    if tok == "ctrl"@ || tok == "CTRL"@ {
        Some(Mods { ctrl: true, ..none })
    } else if tok == "alt"@ || tok == "ALT"@ {
        Some(Mods { alt: true, ..none })
    } else if tok == "shift"@ || tok == "SHIFT"@ {
        Some(Mods { shift: true, ..none })
    } else if tok == "super"@ || tok == "SUPER"@ {
        Some(Mods { sup: true, ..none })
    } else {
        None
    }
}

/// Both sets of modifiers.
pub open spec fn union_mods(a: Mods, b: Mods) -> Mods {
    Mods { ctrl: a.ctrl || b.ctrl, alt: a.alt || b.alt, shift: a.shift || b.shift, sup: a.sup || b.sup }
}

/// `s` split at each `-`.
pub open spec fn dash_parts(s: Seq<char>) -> Seq<Seq<char>>
    decreases s.len(),
{
    if s.len() == 0 {
        seq![Seq::empty()]
    } else {
        let prev = dash_parts(s.drop_last());
        if s.last() == '-' {
            prev.push(Seq::empty())
        } else {
            prev.update(prev.len() - 1, prev.last().push(s.last()))
        }
    }
}

/// Folds the modifier tokens `toks[..k]`: the modifiers, or the first token
/// that is not one.
pub open spec fn fold_mods(toks: Seq<Seq<char>>, k: int) -> Result<Mods, Seq<char>>
    decreases k,
{
    if k <= 0 {
        Ok(Mods { ctrl: false, alt: false, shift: false, sup: false })
    } else {
        match fold_mods(toks, k - 1) {
            Err(t) => Err(t),
            Ok(m) => match modifier_spec(toks[k - 1]) {
                Some(n) => Ok(union_mods(m, n)),
                None => Err(toks[k - 1]),
            },
        }
    }
}

/// The binding a string describes: modifiers separated by `-`, then one
/// character; an upper-case character adds Shift. `Err` carries the
/// refusal: 0 empty, 1 whitespace, 2 bad modifier, 3 missing key,
/// 4 key longer than one character.
pub open spec fn binding_spec(s: Seq<char>) -> Result<Keybinding, (u8, Seq<char>)> {
    if s.len() == 0 {
        Err((0, Seq::empty()))
    } else if exists|i: int| 0 <= i < s.len() && #[trigger] is_white_space(s[i]) {
        Err((1, Seq::empty()))
    } else {
        let parts = dash_parts(s);
        match fold_mods(parts, parts.len() - 1) {
            Err(t) => Err((2, t)),
            Ok(m) => {
                let key = parts.last();
                if key.len() == 0 {
                    Err((3, Seq::empty()))
                } else if key.len() != 1 {
                    Err((4, Seq::empty()))
                } else {
                    Ok(Keybinding {
                        mods: if is_uppercase(key[0]) { union_mods(m, Mods { ctrl: false, alt: false, shift: true, sup: false }) } else { m },
                        key: key[0],
                    })
                }
            },
        }
    }
}

/// The refusal as a tag and token.
pub open spec fn binding_error_view(e: BindingError) -> (u8, Seq<char>) {
    match e {
        BindingError::Empty => (0, Seq::empty()),
        BindingError::Whitespace => (1, Seq::empty()),
        BindingError::InvalidModifier(t) => (2, t@),
        BindingError::MissingKey => (3, Seq::empty()),
        BindingError::MultiCharKey => (4, Seq::empty()),
        BindingError::MissingSection => (5, Seq::empty()),
        BindingError::EmptyDetach => (6, Seq::empty()),
    }
}

/// `r` is what `binding_spec` says of `s`.
pub open spec fn parse_result_is(r: Result<Keybinding, BindingError>, s: Seq<char>) -> bool {
    match r {
        Ok(kb) => binding_spec(s) == Ok::<Keybinding, (u8, Seq<char>)>(kb),
        Err(e) => binding_spec(s) == Err::<Keybinding, (u8, Seq<char>)>(binding_error_view(e)),
    }
}

fn parse_modifier(tok: &str) -> (r: Option<Mods>)
    ensures
        r == modifier_spec(tok@),
{
    let none = Mods::none();
    if crate::text::str_eq(tok, "ctrl") || crate::text::str_eq(tok, "CTRL") {
        Some(Mods { ctrl: true, ..none })
    } else if crate::text::str_eq(tok, "alt") || crate::text::str_eq(tok, "ALT") {
        Some(Mods { alt: true, ..none })
    } else if crate::text::str_eq(tok, "shift") || crate::text::str_eq(tok, "SHIFT") {
        Some(Mods { shift: true, ..none })
    } else if crate::text::str_eq(tok, "super") || crate::text::str_eq(tok, "SUPER") {
        Some(Mods { sup: true, ..none })
    } else {
        None
    }
}

proof fn lemma_dash_parts_nonempty(s: Seq<char>)
    ensures
        dash_parts(s).len() > 0,
    decreases s.len(),
{
    if s.len() > 0 {
        lemma_dash_parts_nonempty(s.drop_last());
    }
}

fn split_dashes(s: &[char]) -> (r: Vec<Vec<char>>)
    ensures
        crate::split::char_vec_views(r@) == dash_parts(s@),
        r@.len() > 0,
{
    let mut out: Vec<Vec<char>> = Vec::new();
    out.push(Vec::new());
    let mut i: usize = 0;
    assert(crate::split::char_vec_views(out@) =~= dash_parts(s@.take(0)));
    while i < s.len()
        invariant
            i <= s.len(),
            out@.len() > 0,
            crate::split::char_vec_views(out@) == dash_parts(s@.take(i as int)),
        decreases s.len() - i,
    {
        assert(s@.take(i + 1).drop_last() =~= s@.take(i as int));
        let ghost before = crate::split::char_vec_views(out@);
        if s[i] == '-' {
            out.push(Vec::new());
            assert(crate::split::char_vec_views(out@) =~= before.push(Seq::empty()));
        } else {
            let last = out.len() - 1;
            let mut cur = out.pop().unwrap();
            let ghost prev_last = cur@;
            cur.push(s[i]);
            out.push(cur);
            assert(crate::split::char_vec_views(out@) =~= before.update(before.len() - 1, prev_last.push(s@[i as int])));
        }
        i += 1;
    }
    assert(s@.take(s.len() as int) =~= s@);
    out
}

/// Reads a binding string such as `ctrl-q` or `Ä`: tokens separated by
/// `-`, the last one a single character, the others modifiers (`ctrl`,
/// `alt`, `shift`, `super`, or in capitals); an upper-case key adds Shift.
/// Empty strings, whitespace and unknown tokens are refused.
pub fn parse_binding_str(s: &str) -> (r: Result<Keybinding, BindingError>)
    ensures
        parse_result_is(r, s@),
{
    let cs = chars_of(s);
    if cs.len() == 0 {
        return Err(BindingError::Empty);
    }
    let mut i: usize = 0;
    while i < cs.len()
        invariant
            i <= cs.len(),
            cs@ == s@,
            forall|k: int| 0 <= k < i ==> !#[trigger] is_white_space(cs@[k]),
        decreases cs.len() - i,
    {
        if is_white_space_exec(cs[i]) {
            return Err(BindingError::Whitespace);
        }
        i += 1;
    }
    assert(!(exists|j: int| 0 <= j < s@.len() && #[trigger] is_white_space(s@[j])));
    let parts = split_dashes(cs.as_slice());
    let ghost pv = crate::split::char_vec_views(parts@);
    let mut mods = Mods::none();
    let mut k: usize = 0;
    while k < parts.len() - 1
        invariant
            pv == crate::split::char_vec_views(parts@),
            pv == dash_parts(s@),
            s@.len() > 0,
            !(exists|j: int| 0 <= j < s@.len() && #[trigger] is_white_space(s@[j])),
            parts@.len() > 0,
            k <= parts.len() - 1,
            fold_mods(pv, k as int) == Ok::<Mods, Seq<char>>(mods),
        decreases parts.len() - 1 - k,
    {
        let tok = string_from_chars(parts[k].as_slice());
        assert(tok@ == pv[k as int]);
        match parse_modifier(tok.as_str()) {
            Some(m) => {
                mods = Mods { ctrl: mods.ctrl || m.ctrl, alt: mods.alt || m.alt, shift: mods.shift || m.shift, sup: mods.sup || m.sup };
            },
            None => {
                proof {
                    assert(fold_mods(pv, k as int + 1) == Err::<Mods, Seq<char>>(pv[k as int]));
                    lemma_fold_mods_err(pv, k as int + 1, (pv.len() - 1) as int);
                    assert(fold_mods(pv, pv.len() - 1) == Err::<Mods, Seq<char>>(tok@));
                    assert(binding_spec(s@) == Err::<Keybinding, (u8, Seq<char>)>((2u8, tok@)));
                }
                return Err(BindingError::InvalidModifier(tok));
            },
        }
        k += 1;
    }
    let last = &parts[parts.len() - 1];
    assert(last@ == pv.last());
    if last.len() == 0 {
        return Err(BindingError::MissingKey);
    }
    if last.len() != 1 {
        return Err(BindingError::MultiCharKey);
    }
    let ch = last[0];
    if char_is_uppercase(ch) {
        mods = Mods { ctrl: mods.ctrl, alt: mods.alt, shift: true, sup: mods.sup };
    }
    Ok(Keybinding { mods, key: ch })
}

proof fn lemma_fold_mods_err(toks: Seq<Seq<char>>, k: int, n: int)
    requires
        0 < k <= n,
        fold_mods(toks, k) is Err,
    ensures
        fold_mods(toks, n) == fold_mods(toks, k),
    decreases n - k,
{
    if k < n {
        lemma_fold_mods_err(toks, k + 1, n);
    }
}

/// Reads the detach binding from the configuration: refused when the
/// keybindings section is missing or the binding is blank.
pub fn parse_detach_key(cfg: &AgencyConfig) -> (r: Result<Keybinding, BindingError>)
    ensures
        cfg.detach_key is None ==> r == Err::<Keybinding, BindingError>(BindingError::MissingSection),
        cfg.detach_key matches Some(d) && trim_spec(d@).len() == 0 ==> r == Err::<Keybinding, BindingError>(BindingError::EmptyDetach),
        cfg.detach_key matches Some(d) ==> (trim_spec(d@).len() > 0 ==> parse_result_is(r, d@)),
{
    match &cfg.detach_key {
        None => Err(BindingError::MissingSection),
        Some(d) => {
            let t = trim_str(d.as_str());
            if t.as_str().is_empty() {
                Err(BindingError::EmptyDetach)
            } else {
                parse_binding_str(d.as_str())
            }
        },
    }
}

/// Modifier tokens each followed by `-`: `m1-m2-...-mk-`.
pub open spec fn dashed_tokens(toks: Seq<Seq<char>>) -> Seq<char>
    decreases toks.len(),
{
    if toks.len() == 0 {
        Seq::empty()
    } else {
        dashed_tokens(toks.drop_last()) + toks.last() + seq!['-']
    }
}

/// Whether some token is `a` or `b`.
pub open spec fn names_any(toks: Seq<Seq<char>>, a: Seq<char>, b: Seq<char>) -> bool {
    exists|i: int| 0 <= i < toks.len() && (#[trigger] toks[i] == a || toks[i] == b)
}

proof fn lemma_dash_parts_plain(x: Seq<char>, w: Seq<char>)
    requires
        forall|i: int| 0 <= i < w.len() ==> #[trigger] w[i] != '-',
    ensures
        dash_parts(x + w) == dash_parts(x).update(dash_parts(x).len() - 1, dash_parts(x).last() + w),
    decreases w.len(),
{
    lemma_dash_parts_nonempty(x);
    let d = dash_parts(x);
    if w.len() == 0 {
        assert(x + w =~= x);
        assert(d.last() + w =~= d.last());
        assert(d.update(d.len() - 1, d.last()) =~= d);
    } else {
        let w0 = w.drop_last();
        assert forall|i: int| 0 <= i < w0.len() implies #[trigger] w0[i] != '-' by {
            assert(w0[i] == w[i]);
        }
        lemma_dash_parts_plain(x, w0);
        assert((x + w).drop_last() =~= x + w0);
        assert((x + w).last() == w.last());
        assert(w.last() == w[w.len() - 1]);
        let p = dash_parts(x + w0);
        assert(p.last() == d.last() + w0);
        assert((d.last() + w0).push(w.last()) =~= d.last() + w);
        assert(p.update(p.len() - 1, p.last().push(w.last())) =~= d.update(d.len() - 1, d.last() + w));
    }
}

proof fn lemma_modifier_name_plain(tok: Seq<char>)
    requires
        modifier_spec(tok) is Some,
    ensures
        forall|i: int| 0 <= i < tok.len() ==> #[trigger] tok[i] != '-' && !is_white_space(tok[i]) && tok[i] != '\n',
{
    reveal_strlit("ctrl");
    reveal_strlit("CTRL");
    reveal_strlit("alt");
    reveal_strlit("ALT");
    reveal_strlit("shift");
    reveal_strlit("SHIFT");
    reveal_strlit("super");
    reveal_strlit("SUPER");
}

proof fn lemma_dashed_tokens_parts(toks: Seq<Seq<char>>)
    requires
        forall|i: int| 0 <= i < toks.len() ==> modifier_spec(#[trigger] toks[i]) is Some,
    ensures
        dash_parts(dashed_tokens(toks)) == toks.push(Seq::<char>::empty()),
        forall|j: int| 0 <= j < dashed_tokens(toks).len() ==> !is_white_space(#[trigger] dashed_tokens(toks)[j]),
    decreases toks.len(),
{
    if toks.len() == 0 {
        assert(dashed_tokens(toks) =~= Seq::<char>::empty());
        assert(dash_parts(Seq::<char>::empty()) =~= seq![Seq::<char>::empty()]);
        assert(toks.push(Seq::<char>::empty()) =~= seq![Seq::<char>::empty()]);
    } else {
        let t0 = toks.drop_last();
        let tok = toks.last();
        assert(toks[toks.len() - 1] == tok);
        assert forall|i: int| 0 <= i < t0.len() implies modifier_spec(#[trigger] t0[i]) is Some by {
            assert(t0[i] == toks[i]);
        }
        lemma_dashed_tokens_parts(t0);
        lemma_modifier_name_plain(tok);
        let x = dashed_tokens(t0);
        lemma_dash_parts_plain(x, tok);
        let xt = x + tok;
        assert(dash_parts(x).last() == Seq::<char>::empty());
        assert(Seq::<char>::empty() + tok =~= tok);
        assert(dash_parts(xt) =~= t0.push(tok));
        let s = xt + seq!['-'];
        assert(dashed_tokens(toks) == s);
        assert(s.drop_last() =~= xt);
        assert(s.last() == '-');
        assert(dash_parts(s) == dash_parts(xt).push(Seq::<char>::empty()));
        assert(t0.push(tok) =~= toks);
        assert forall|j: int| 0 <= j < s.len() implies !is_white_space(#[trigger] s[j]) by {
            if j < x.len() {
                assert(s[j] == x[j]);
            } else if j < xt.len() {
                assert(s[j] == tok[j - x.len()]);
            } else {
                assert(s[j] == '-');
            }
        }
    }
}

proof fn lemma_fold_mods_push(toks: Seq<Seq<char>>, extra: Seq<char>, k: int)
    requires
        0 <= k <= toks.len(),
    ensures
        fold_mods(toks.push(extra), k) == fold_mods(toks, k),
    decreases k,
{
    if k > 0 {
        lemma_fold_mods_push(toks, extra, k - 1);
        assert(toks.push(extra)[k - 1] == toks[k - 1]);
    }
}

proof fn lemma_fold_mods_names(toks: Seq<Seq<char>>, k: int)
    requires
        0 <= k <= toks.len(),
        forall|i: int| 0 <= i < toks.len() ==> modifier_spec(#[trigger] toks[i]) is Some,
    ensures
        fold_mods(toks, k) == Ok::<Mods, Seq<char>>(Mods {
            ctrl: names_any(toks.take(k), "ctrl"@, "CTRL"@),
            alt: names_any(toks.take(k), "alt"@, "ALT"@),
            shift: names_any(toks.take(k), "shift"@, "SHIFT"@),
            sup: names_any(toks.take(k), "super"@, "SUPER"@),
        }),
    decreases k,
{
    reveal_strlit("ctrl");
    reveal_strlit("CTRL");
    reveal_strlit("alt");
    reveal_strlit("ALT");
    reveal_strlit("shift");
    reveal_strlit("SHIFT");
    reveal_strlit("super");
    reveal_strlit("SUPER");
    if k == 0 {
        assert(toks.take(0) =~= Seq::<Seq<char>>::empty());
    } else {
        lemma_fold_mods_names(toks, k - 1);
        let a = toks.take(k - 1);
        let b = toks.take(k);
        let t = toks[k - 1];
        assert(modifier_spec(toks[k - 1]) is Some);
        assert forall|i: int| 0 <= i < k - 1 implies #[trigger] b[i] == a[i] by {}
        assert(b[k - 1] == t);
        assert(b =~= a.push(t));
        lemma_names_any_push(a, t, "ctrl"@, "CTRL"@);
        lemma_names_any_push(a, t, "alt"@, "ALT"@);
        lemma_names_any_push(a, t, "shift"@, "SHIFT"@);
        lemma_names_any_push(a, t, "super"@, "SUPER"@);
        let none = Mods { ctrl: false, alt: false, shift: false, sup: false };
        assert("ctrl"@.len() == 4 && "CTRL"@.len() == 4 && "alt"@.len() == 3 && "ALT"@.len() == 3);
        assert("shift"@.len() == 5 && "SHIFT"@.len() == 5 && "super"@.len() == 5 && "SUPER"@.len() == 5);
        assert("shift"@[1] == 'h' && "SHIFT"@[1] == 'H' && "super"@[1] == 'u' && "SUPER"@[1] == 'U');
        if t == "ctrl"@ || t == "CTRL"@ {
            assert(modifier_spec(t) == Some(Mods { ctrl: true, ..none }));
        } else if t == "alt"@ || t == "ALT"@ {
            assert(modifier_spec(t) == Some(Mods { alt: true, ..none }));
        } else if t == "shift"@ || t == "SHIFT"@ {
            assert(modifier_spec(t) == Some(Mods { shift: true, ..none }));
        } else {
            assert(t == "super"@ || t == "SUPER"@);
            assert(modifier_spec(t) == Some(Mods { sup: true, ..none }));
        }
    }
}

proof fn lemma_names_any_push(a: Seq<Seq<char>>, t: Seq<char>, x: Seq<char>, y: Seq<char>)
    ensures
        names_any(a.push(t), x, y) <==> (names_any(a, x, y) || t == x || t == y),
{
    let b = a.push(t);
    if names_any(b, x, y) {
        let i = choose|i: int| 0 <= i < b.len() && (#[trigger] b[i] == x || b[i] == y);
        if i < a.len() {
            assert(a[i] == b[i]);
        }
    }
    if names_any(a, x, y) {
        let i = choose|i: int| 0 <= i < a.len() && (#[trigger] a[i] == x || a[i] == y);
        assert(b[i] == a[i]);
    }
    if t == x || t == y {
        assert(b[a.len() as int] == t);
    }
}

/// A binding string made of modifier names (`ctrl`, `alt`, `shift`,
/// `super`, or in capitals), each followed by `-`, then one key character
/// (not `-`, not whitespace) reads as that key with every named modifier
/// set, in whatever order they are named, and no other (an upper-case key
/// adds Shift).
pub proof fn lemma_binding_names_all_modifiers(toks: Seq<Seq<char>>, c: char)
    requires
        forall|i: int| 0 <= i < toks.len() ==> modifier_spec(#[trigger] toks[i]) is Some,
        c != '-',
        !is_white_space(c),
    ensures
        binding_spec(dashed_tokens(toks) + seq![c]) == Ok::<Keybinding, (u8, Seq<char>)>(Keybinding {
            mods: Mods {
                ctrl: names_any(toks, "ctrl"@, "CTRL"@),
                alt: names_any(toks, "alt"@, "ALT"@),
                shift: names_any(toks, "shift"@, "SHIFT"@) || is_uppercase(c),
                sup: names_any(toks, "super"@, "SUPER"@),
            },
            key: c,
        }),
{
    let x = dashed_tokens(toks);
    let s = x + seq![c];
    lemma_dashed_tokens_parts(toks);
    lemma_dash_parts_plain(x, seq![c]);
    let parts = dash_parts(s);
    assert(parts =~= toks.push(seq![c]));
    assert(Seq::<char>::empty() + seq![c] =~= seq![c]);
    assert(!(exists|i: int| 0 <= i < s.len() && #[trigger] is_white_space(s[i]))) by {
        assert forall|i: int| 0 <= i < s.len() implies !#[trigger] is_white_space(s[i]) by {
            if i < x.len() {
                assert(s[i] == x[i]);
            } else {
                assert(s[i] == c);
            }
        }
    }
    assert(s.len() > 0);
    lemma_fold_mods_push(toks, seq![c], toks.len() as int);
    lemma_fold_mods_names(toks, toks.len() as int);
    assert(toks.take(toks.len() as int) =~= toks);
    assert(parts.last() == seq![c]);
}

} // verus!
