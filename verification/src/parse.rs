//! Reading a scene description's structural subset: element well-formedness,
//! and the joint and actuator declarations that the compiled layout is
//! built from.
//!
//! The executable reader mirrors a family of specification functions over
//! the byte sequence, so that the result is pinned to a mathematical
//! function of the text alone.

use vstd::prelude::*;
use crate::errors::ParseError;
use crate::model::JointKind;

verus! {

/// Whitespace: space, tab, line feed, carriage return.
pub open spec fn is_ws(b: u8) -> bool {
    b == 32 || b == 9 || b == 10 || b == 13
}

/// A byte that may stand in an element, attribute or reference name:
/// an ASCII letter or digit, `_`, `-`, `.` or `:`.
pub open spec fn is_name_byte(b: u8) -> bool {
    (48 <= b <= 57) || (65 <= b <= 90) || (97 <= b <= 122) || b == 95 || b == 45 || b == 46
        || b == 58
}

/// First index at or after `i` holding a byte that is not whitespace, or
/// the text's length.
pub open spec fn sp_skip_ws(s: Seq<u8>, i: int) -> int
    decreases s.len() - i,
{
    if 0 <= i < s.len() && is_ws(s[i]) {
        sp_skip_ws(s, i + 1)
    } else {
        i
    }
}

/// First index at or after `i` holding a byte that is not a name byte, or
/// the text's length.
pub open spec fn sp_scan_name(s: Seq<u8>, i: int) -> int
    decreases s.len() - i,
{
    if 0 <= i < s.len() && is_name_byte(s[i]) {
        sp_scan_name(s, i + 1)
    } else {
        i
    }
}

/// First index at or after `i` holding byte `b`, or the text's length.
pub open spec fn sp_find(s: Seq<u8>, i: int, b: u8) -> int
    decreases s.len() - i,
{
    if 0 <= i < s.len() {
        if s[i] == b {
            i
        } else {
            sp_find(s, i + 1, b)
        }
    } else {
        i
    }
}

pub proof fn lemma_sp_skip_ws_bounds(s: Seq<u8>, i: int)
    requires
        0 <= i <= s.len(),
    ensures
        i <= sp_skip_ws(s, i) <= s.len(),
    decreases s.len() - i,
{
    if i < s.len() && is_ws(s[i]) {
        lemma_sp_skip_ws_bounds(s, i + 1);
    }
}

pub proof fn lemma_sp_scan_name_bounds(s: Seq<u8>, i: int)
    requires
        0 <= i <= s.len(),
    ensures
        i <= sp_scan_name(s, i) <= s.len(),
    decreases s.len() - i,
{
    if i < s.len() && is_name_byte(s[i]) {
        lemma_sp_scan_name_bounds(s, i + 1);
    }
}

pub proof fn lemma_sp_find_bounds(s: Seq<u8>, i: int, b: u8)
    requires
        0 <= i <= s.len(),
    ensures
        i <= sp_find(s, i, b) <= s.len(),
        sp_find(s, i, b) < s.len() ==> s[sp_find(s, i, b)] == b,
    decreases s.len() - i,
{
    if i < s.len() && s[i] != b {
        lemma_sp_find_bounds(s, i + 1, b);
    }
}

/// Skip whitespace from `i`.
fn skip_ws(s: &[u8], i: usize) -> (r: usize)
    requires
        i <= s@.len(),
    ensures
        r == sp_skip_ws(s@, i as int),
        i <= r <= s@.len(),
{
    let n: usize = s.len();
    let mut t: usize = i;
    while t < n && (s[t] == 32 || s[t] == 9 || s[t] == 10 || s[t] == 13)
        invariant
            i <= t <= n == s@.len(),
            sp_skip_ws(s@, i as int) == sp_skip_ws(s@, t as int),
        decreases n - t,
    {
        t = t + 1;
    }
    t
}

/// Scan name bytes from `i`.
fn scan_name(s: &[u8], i: usize) -> (r: usize)
    requires
        i <= s@.len(),
    ensures
        r == sp_scan_name(s@, i as int),
        i <= r <= s@.len(),
{
    let n: usize = s.len();
    let mut t: usize = i;
    while t < n && ((48 <= s[t] && s[t] <= 57) || (65 <= s[t] && s[t] <= 90) || (97 <= s[t]
        && s[t] <= 122) || s[t] == 95 || s[t] == 45 || s[t] == 46 || s[t] == 58)
        invariant
            i <= t <= n == s@.len(),
            sp_scan_name(s@, i as int) == sp_scan_name(s@, t as int),
        decreases n - t,
    {
        t = t + 1;
    }
    t
}

/// Find byte `b` from `i`.
fn find_byte(s: &[u8], i: usize, b: u8) -> (r: usize)
    requires
        i <= s@.len(),
    ensures
        r == sp_find(s@, i as int, b),
        i <= r <= s@.len(),
{
    let n: usize = s.len();
    let mut t: usize = i;
    while t < n && s[t] != b
        invariant
            i <= t <= n == s@.len(),
            sp_find(s@, i as int, b) == sp_find(s@, t as int, b),
        decreases n - t,
    {
        t = t + 1;
    }
    t
}

/// Byte-wise equality of two byte strings.
fn bytes_eq(a: &[u8], b: &[u8]) -> (r: bool)
    ensures
        r == (a@ == b@),
{
    if a.len() != b.len() {
        proof {
            assert(a@.len() != b@.len());
        }
        return false;
    }
    let n: usize = a.len();
    let mut t: usize = 0;
    while t < n
        invariant
            t <= n == a@.len() == b@.len(),
            forall|k: int| 0 <= k < t ==> a@[k] == b@[k],
        decreases n - t,
    {
        if a[t] != b[t] {
            return false;
        }
        t = t + 1;
    }
    proof {
        assert(a@ =~= b@);
    }
    true
}

/// The bytes of `joint`.
pub open spec fn is_kw_joint(n: Seq<u8>) -> bool {
    n.len() == 5 && n[0] == 106 && n[1] == 111 && n[2] == 105 && n[3] == 110 && n[4] == 116
}

/// The bytes of `actuator`.
pub open spec fn is_kw_actuator(n: Seq<u8>) -> bool {
    n.len() == 8 && n[0] == 97 && n[1] == 99 && n[2] == 116 && n[3] == 117 && n[4] == 97 && n[5]
        == 116 && n[6] == 111 && n[7] == 114
}

/// The bytes of `type`.
pub open spec fn is_kw_type(n: Seq<u8>) -> bool {
    n.len() == 4 && n[0] == 116 && n[1] == 121 && n[2] == 112 && n[3] == 101
}

/// The bytes of `name`.
pub open spec fn is_kw_name(n: Seq<u8>) -> bool {
    n.len() == 4 && n[0] == 110 && n[1] == 97 && n[2] == 109 && n[3] == 101
}

/// The joint kind named by a `type` attribute value, if any.
pub open spec fn sp_kind_named(v: Seq<u8>) -> Option<JointKind> {
    if v.len() == 4 && v[0] == 102 && v[1] == 114 && v[2] == 101 && v[3] == 101 {
        Some(JointKind::Free)
    } else if v.len() == 4 && v[0] == 98 && v[1] == 97 && v[2] == 108 && v[3] == 108 {
        Some(JointKind::Ball)
    } else if v.len() == 5 && v[0] == 115 && v[1] == 108 && v[2] == 105 && v[3] == 100 && v[4]
        == 101 {
        Some(JointKind::Slide)
    } else if v.len() == 5 && v[0] == 104 && v[1] == 105 && v[2] == 110 && v[3] == 103 && v[4]
        == 101 {
        Some(JointKind::Hinge)
    } else {
        None
    }
}

fn kw_joint(n: &[u8]) -> (r: bool)
    ensures
        r == is_kw_joint(n@),
{
    n.len() == 5 && n[0] == 106 && n[1] == 111 && n[2] == 105 && n[3] == 110 && n[4] == 116
}

fn kw_actuator(n: &[u8]) -> (r: bool)
    ensures
        r == is_kw_actuator(n@),
{
    n.len() == 8 && n[0] == 97 && n[1] == 99 && n[2] == 116 && n[3] == 117 && n[4] == 97 && n[5]
        == 116 && n[6] == 111 && n[7] == 114
}

fn kw_type(n: &[u8]) -> (r: bool)
    ensures
        r == is_kw_type(n@),
{
    n.len() == 4 && n[0] == 116 && n[1] == 121 && n[2] == 112 && n[3] == 101
}

fn kw_name(n: &[u8]) -> (r: bool)
    ensures
        r == is_kw_name(n@),
{
    n.len() == 4 && n[0] == 110 && n[1] == 97 && n[2] == 109 && n[3] == 101
}

fn kind_named(v: &[u8]) -> (r: Option<JointKind>)
    ensures
        r == sp_kind_named(v@),
{
    if v.len() == 4 && v[0] == 102 && v[1] == 114 && v[2] == 101 && v[3] == 101 {
        Some(JointKind::Free)
    } else if v.len() == 4 && v[0] == 98 && v[1] == 97 && v[2] == 108 && v[3] == 108 {
        Some(JointKind::Ball)
    } else if v.len() == 5 && v[0] == 115 && v[1] == 108 && v[2] == 105 && v[3] == 100 && v[4]
        == 101 {
        Some(JointKind::Slide)
    } else if v.len() == 5 && v[0] == 104 && v[1] == 105 && v[2] == 110 && v[3] == 103 && v[4]
        == 101 {
        Some(JointKind::Hinge)
    } else {
        None
    }
}

/// One `key="value"` attribute.
#[derive(Debug)]
pub struct Attr {
    pub key: Vec<u8>,
    pub value: Vec<u8>,
}

/// The attributes as pairs of byte strings.
pub open spec fn attrs_view(a: Seq<Attr>) -> Seq<(Seq<u8>, Seq<u8>)> {
    a.map_values(|x: Attr| (x.key@, x.value@))
}

/// Attribute list read from index `i` up to the first `/` or `>`:
/// whitespace-separated `key="value"` pairs.
pub open spec fn sp_attrs(s: Seq<u8>, i: int, fuel: nat) -> Result<
    (Seq<(Seq<u8>, Seq<u8>)>, int),
    ParseError,
>
    decreases fuel,
{
    let w = sp_skip_ws(s, i);
    if w >= s.len() || s[w] == 62 || s[w] == 47 {
        Ok((Seq::empty(), w))
    } else {
        let e = sp_scan_name(s, w);
        if e == w {
            Err(ParseError::BadAttribute { at: w as usize })
        } else if !(e < s.len() && s[e] == 61) {
            Err(ParseError::BadAttribute { at: w as usize })
        } else if !(e + 1 < s.len() && s[e + 1] == 34) {
            Err(ParseError::BadAttribute { at: w as usize })
        } else {
            let q = sp_find(s, e + 2, 34);
            if q >= s.len() {
                Err(ParseError::UnterminatedAttribute { at: (e + 2) as usize })
            } else if fuel == 0 {
                Err(ParseError::NestingTooDeep)
            } else {
                match sp_attrs(s, q + 1, (fuel - 1) as nat) {
                    Ok(rest) => Ok(
                        (seq![(s.subrange(w, e), s.subrange(e + 2, q))].add(rest.0), rest.1),
                    ),
                    Err(err) => Err(err),
                }
            }
        }
    }
}

pub proof fn lemma_sp_attrs_bounds(s: Seq<u8>, i: int, fuel: nat)
    requires
        0 <= i <= s.len(),
    ensures
        sp_attrs(s, i, fuel) is Ok ==> i <= sp_attrs(s, i, fuel)->Ok_0.1 <= s.len(),
    decreases fuel,
{
    lemma_sp_skip_ws_bounds(s, i);
    let w = sp_skip_ws(s, i);
    if !(w >= s.len() || s[w] == 62 || s[w] == 47) {
        lemma_sp_scan_name_bounds(s, w);
        let e = sp_scan_name(s, w);
        if e != w && e < s.len() && s[e] == 61 && e + 1 < s.len() && s[e + 1] == 34 {
            lemma_sp_find_bounds(s, e + 2, 34);
            let q = sp_find(s, e + 2, 34);
            if q < s.len() && fuel > 0 {
                lemma_sp_attrs_bounds(s, q + 1, (fuel - 1) as nat);
            }
        }
    }
}

/// Read the attribute list; mirrors `sp_attrs`.
fn p_attrs(s: &[u8], i: usize, fuel: usize) -> (r: Result<(Vec<Attr>, usize), ParseError>)
    requires
        i <= s@.len(),
    ensures
        ({
            let g = sp_attrs(s@, i as int, fuel as nat);
            match r {
                Ok(a) => g == Ok::<_, ParseError>((attrs_view(a.0@), a.1 as int)),
                Err(e) => g == Err::<(Seq<(Seq<u8>, Seq<u8>)>, int), ParseError>(e),
            }
        }),
    decreases fuel,
{
    let n: usize = s.len();
    let w = skip_ws(s, i);
    if w >= n || s[w] == 62 || s[w] == 47 {
        proof {
            assert(attrs_view(Seq::<Attr>::empty()) =~= Seq::<(Seq<u8>, Seq<u8>)>::empty());
        }
        return Ok((Vec::new(), w));
    }
    let e = scan_name(s, w);
    if e == w {
        return Err(ParseError::BadAttribute { at: w });
    }
    if !(e < n && s[e] == 61) {
        return Err(ParseError::BadAttribute { at: w });
    }
    if !(e + 1 < n && s[e + 1] == 34) {
        return Err(ParseError::BadAttribute { at: w });
    }
    let q = find_byte(s, e + 2, 34);
    if q >= n {
        return Err(ParseError::UnterminatedAttribute { at: e + 2 });
    }
    if fuel == 0 {
        return Err(ParseError::NestingTooDeep);
    }
    match p_attrs(s, q + 1, fuel - 1) {
        Ok((mut rest, k)) => {
            let key = vstd::slice::slice_to_vec(vstd::slice::slice_subrange(s, w, e));
            let value = vstd::slice::slice_to_vec(vstd::slice::slice_subrange(s, e + 2, q));
            let ghost rest0 = rest@;
            let mut out: Vec<Attr> = Vec::new();
            out.push(Attr { key, value });
            out.append(&mut rest);
            proof {
                assert(attrs_view(out@) =~= seq![
                    (s@.subrange(w as int, e as int), s@.subrange(e + 2, q as int)),
                ].add(attrs_view(rest0)));
            }
            Ok((out, k))
        },
        Err(err) => Err(err),
    }
}

/// One tag, read from its opening `<`.
#[derive(Debug)]
pub struct Tag {
    pub close: bool,
    pub name: Vec<u8>,
    pub attrs: Vec<Attr>,
    pub self_closing: bool,
    pub next: usize,
}

pub ghost struct GTag {
    pub close: bool,
    pub name: Seq<u8>,
    pub attrs: Seq<(Seq<u8>, Seq<u8>)>,
    pub self_closing: bool,
    pub next: int,
}

pub open spec fn tag_view(t: Tag) -> GTag {
    GTag {
        close: t.close,
        name: t.name@,
        attrs: attrs_view(t.attrs@),
        self_closing: t.self_closing,
        next: t.next as int,
    }
}

/// The tag starting at index `t`, where `s[t]` is `<`: either a closing tag
/// `</name>` or an opening tag `<name attrs>` or `<name attrs/>`, with
/// `next` just after the `>`.
pub open spec fn sp_tag(s: Seq<u8>, t: int) -> Result<GTag, ParseError> {
    let u = t + 1;
    if !(0 <= t && u < s.len()) {
        Err(ParseError::UnterminatedTag { at: t as usize })
    } else if s[u] == 47 {
        let e = sp_scan_name(s, u + 1);
        if e == u + 1 {
            Err(ParseError::BadTagName { at: (u + 1) as usize })
        } else if e < s.len() && s[e] == 62 {
            Ok(
                GTag {
                    close: true,
                    name: s.subrange(u + 1, e),
                    attrs: Seq::empty(),
                    self_closing: false,
                    next: e + 1,
                },
            )
        } else {
            Err(ParseError::UnterminatedTag { at: t as usize })
        }
    } else {
        let e = sp_scan_name(s, u);
        if e == u {
            Err(ParseError::BadTagName { at: u as usize })
        } else {
            match sp_attrs(s, e, s.len() as nat) {
                Err(err) => Err(err),
                Ok(ak) => {
                    let k = ak.1;
                    if k < s.len() && s[k] == 47 {
                        if k + 1 < s.len() && s[k + 1] == 62 {
                            Ok(
                                GTag {
                                    close: false,
                                    name: s.subrange(u, e),
                                    attrs: ak.0,
                                    self_closing: true,
                                    next: k + 2,
                                },
                            )
                        } else {
                            Err(ParseError::UnterminatedTag { at: t as usize })
                        }
                    } else if k < s.len() && s[k] == 62 {
                        Ok(
                            GTag {
                                close: false,
                                name: s.subrange(u, e),
                                attrs: ak.0,
                                self_closing: false,
                                next: k + 1,
                            },
                        )
                    } else {
                        Err(ParseError::UnterminatedTag { at: t as usize })
                    }
                },
            }
        }
    }
}

pub proof fn lemma_sp_tag_bounds(s: Seq<u8>, t: int)
    requires
        0 <= t <= s.len(),
    ensures
        sp_tag(s, t) is Ok ==> t + 3 <= sp_tag(s, t)->Ok_0.next <= s.len(),
{
    let u = t + 1;
    if u < s.len() {
        if s[u] == 47 {
            lemma_sp_scan_name_bounds(s, u + 1);
        } else {
            lemma_sp_scan_name_bounds(s, u);
            let e = sp_scan_name(s, u);
            if e != u {
                lemma_sp_attrs_bounds(s, e, s.len() as nat);
            }
        }
    }
}

/// Read one tag; mirrors `sp_tag`.
fn p_tag(s: &[u8], t: usize) -> (r: Result<Tag, ParseError>)
    requires
        t < s@.len(),
    ensures
        ({
            let g = sp_tag(s@, t as int);
            match r {
                Ok(tag) => g == Ok::<GTag, ParseError>(tag_view(tag)),
                Err(e) => g == Err::<GTag, ParseError>(e),
            }
        }),
{
    let n: usize = s.len();
    let u = t + 1;
    if !(u < n) {
        return Err(ParseError::UnterminatedTag { at: t });
    }
    if s[u] == 47 {
        let e = scan_name(s, u + 1);
        if e == u + 1 {
            return Err(ParseError::BadTagName { at: u + 1 });
        }
        if e < n && s[e] == 62 {
            let name = vstd::slice::slice_to_vec(vstd::slice::slice_subrange(s, u + 1, e));
            proof {
                assert(attrs_view(Seq::<Attr>::empty()) =~= Seq::<(Seq<u8>, Seq<u8>)>::empty());
            }
            Ok(Tag { close: true, name, attrs: Vec::new(), self_closing: false, next: e + 1 })
        } else {
            Err(ParseError::UnterminatedTag { at: t })
        }
    } else {
        let e = scan_name(s, u);
        if e == u {
            return Err(ParseError::BadTagName { at: u });
        }
        match p_attrs(s, e, n) {
            Err(err) => Err(err),
            Ok((attrs, k)) => {
                if k < n && s[k] == 47 {
                    if k + 1 < n && s[k + 1] == 62 {
                        let name = vstd::slice::slice_to_vec(
                            vstd::slice::slice_subrange(s, u, e),
                        );
                        Ok(Tag { close: false, name, attrs, self_closing: true, next: k + 2 })
                    } else {
                        Err(ParseError::UnterminatedTag { at: t })
                    }
                } else if k < n && s[k] == 62 {
                    let name = vstd::slice::slice_to_vec(vstd::slice::slice_subrange(s, u, e));
                    Ok(Tag { close: false, name, attrs, self_closing: false, next: k + 1 })
                } else {
                    Err(ParseError::UnterminatedTag { at: t })
                }
            },
        }
    }
}

/// Value of the first attribute from index `j` on whose key is `type`.
pub open spec fn sp_lookup_type_from(attrs: Seq<(Seq<u8>, Seq<u8>)>, j: int) -> Option<Seq<u8>>
    decreases attrs.len() - j,
{
    if 0 <= j < attrs.len() {
        if is_kw_type(attrs[j].0) {
            Some(attrs[j].1)
        } else {
            sp_lookup_type_from(attrs, j + 1)
        }
    } else {
        None
    }
}

/// Value of the first attribute from index `j` on whose key is `name`.
pub open spec fn sp_lookup_name_from(attrs: Seq<(Seq<u8>, Seq<u8>)>, j: int) -> Option<Seq<u8>>
    decreases attrs.len() - j,
{
    if 0 <= j < attrs.len() {
        if is_kw_name(attrs[j].0) {
            Some(attrs[j].1)
        } else {
            sp_lookup_name_from(attrs, j + 1)
        }
    } else {
        None
    }
}

/// The joint kind a declaration's attributes select: the default kind when
/// no `type` attribute is present, and none when its value is unknown.
pub open spec fn sp_kind_of_attrs(attrs: Seq<(Seq<u8>, Seq<u8>)>) -> Option<JointKind> {
    match sp_lookup_type_from(attrs, 0) {
        Some(v) => sp_kind_named(v),
        None => Some(JointKind::Hinge),
    }
}

/// The name a declaration's attributes give it, empty when absent.
pub open spec fn sp_name_of_attrs(attrs: Seq<(Seq<u8>, Seq<u8>)>) -> Seq<u8> {
    match sp_lookup_name_from(attrs, 0) {
        Some(v) => v,
        None => Seq::empty(),
    }
}

/// Look up the `type` attribute; mirrors `sp_lookup_type_from` at 0.
fn attr_type<'x>(attrs: &'x Vec<Attr>) -> (r: Option<&'x Vec<u8>>)
    ensures
        match r {
            Some(v) => sp_lookup_type_from(attrs_view(attrs@), 0) == Some(v@),
            None => sp_lookup_type_from(attrs_view(attrs@), 0) is None,
        },
{
    let n: usize = attrs.len();
    let mut j: usize = 0;
    while j < n
        invariant
            j <= n == attrs@.len(),
            sp_lookup_type_from(attrs_view(attrs@), 0) == sp_lookup_type_from(
                attrs_view(attrs@),
                j as int,
            ),
        decreases n - j,
    {
        if kw_type(attrs[j].key.as_slice()) {
            return Some(&attrs[j].value);
        }
        j = j + 1;
    }
    None
}

/// Look up the `name` attribute; mirrors `sp_lookup_name_from` at 0.
fn attr_name<'x>(attrs: &'x Vec<Attr>) -> (r: Option<&'x Vec<u8>>)
    ensures
        match r {
            Some(v) => sp_lookup_name_from(attrs_view(attrs@), 0) == Some(v@),
            None => sp_lookup_name_from(attrs_view(attrs@), 0) is None,
        },
{
    let n: usize = attrs.len();
    let mut j: usize = 0;
    while j < n
        invariant
            j <= n == attrs@.len(),
            sp_lookup_name_from(attrs_view(attrs@), 0) == sp_lookup_name_from(
                attrs_view(attrs@),
                j as int,
            ),
        decreases n - j,
    {
        if kw_name(attrs[j].key.as_slice()) {
            return Some(&attrs[j].value);
        }
        j = j + 1;
    }
    None
}

/// One joint declaration: its kind and its name.
#[derive(Debug)]
pub struct JointDecl {
    pub kind: JointKind,
    pub name: Vec<u8>,
}

/// The declarations as pairs of kind and name bytes.
pub open spec fn jds_view(v: Seq<JointDecl>) -> Seq<(JointKind, Seq<u8>)> {
    v.map_values(|j: JointDecl| (j.kind, j.name@))
}

/// What a stretch of content yields: the joint declarations read, the
/// number of actuator declarations read, and the index just after the
/// stretch.
pub ghost struct GOut {
    pub joints: Seq<(JointKind, Seq<u8>)>,
    pub nu: int,
    pub next: int,
}

/// Content read from index `i` until the end of the text (when `close` is
/// none) or until the matching closing tag (when `close` names the open
/// element). Joint declarations are collected anywhere; every element that
/// is a child of an `actuator` element counts as one actuator.
pub open spec fn sp_content(
    s: Seq<u8>,
    i: int,
    close: Option<Seq<u8>>,
    in_act: bool,
    fuel: nat,
) -> Result<GOut, ParseError>
    decreases fuel,
{
    let t = sp_find(s, i, 60);
    if t >= s.len() {
        match close {
            Option::None => Ok(GOut { joints: Seq::empty(), nu: 0, next: t }),
            Option::Some(_) => Err(ParseError::UnexpectedEnd),
        }
    } else {
        match sp_tag(s, t) {
            Err(e) => Err(e),
            Ok(g) => {
                if g.close {
                    match close {
                        Option::Some(c) => if g.name == c {
                            Ok(GOut { joints: Seq::empty(), nu: 0, next: g.next })
                        } else {
                            Err(ParseError::MismatchedClose { at: t as usize })
                        },
                        Option::None => Err(ParseError::MismatchedClose { at: t as usize }),
                    }
                } else if fuel == 0 {
                    Err(ParseError::NestingTooDeep)
                } else if is_kw_joint(g.name) && sp_kind_of_attrs(g.attrs) is None {
                    Err(ParseError::UnknownJointType { at: t as usize })
                } else {
                    let js = if is_kw_joint(g.name) {
                        seq![(sp_kind_of_attrs(g.attrs)->0, sp_name_of_attrs(g.attrs))]
                    } else {
                        Seq::empty()
                    };
                    let uhere: int = if in_act {
                        1
                    } else {
                        0
                    };
                    if g.self_closing {
                        match sp_content(s, g.next, close, in_act, (fuel - 1) as nat) {
                            Err(e) => Err(e),
                            Ok(rest) => Ok(
                                GOut {
                                    joints: js + rest.joints,
                                    nu: uhere + rest.nu,
                                    next: rest.next,
                                },
                            ),
                        }
                    } else {
                        match sp_content(
                            s,
                            g.next,
                            Some(g.name),
                            is_kw_actuator(g.name),
                            (fuel - 1) as nat,
                        ) {
                            Err(e) => Err(e),
                            Ok(inner) => match sp_content(
                                s,
                                inner.next,
                                close,
                                in_act,
                                (fuel - 1) as nat,
                            ) {
                                Err(e) => Err(e),
                                Ok(rest) => Ok(
                                    GOut {
                                        joints: js + inner.joints + rest.joints,
                                        nu: uhere + inner.nu + rest.nu,
                                        next: rest.next,
                                    },
                                ),
                            },
                        }
                    }
                }
            },
        }
    }
}

pub proof fn lemma_sp_content_bounds(
    s: Seq<u8>,
    i: int,
    close: Option<Seq<u8>>,
    in_act: bool,
    fuel: nat,
)
    requires
        0 <= i <= s.len(),
    ensures
        sp_content(s, i, close, in_act, fuel) is Ok ==> {
            let o = sp_content(s, i, close, in_act, fuel)->Ok_0;
            &&& i <= o.next <= s.len()
            &&& 0 <= o.nu <= o.next - i
            &&& o.joints.len() <= o.next - i
        },
    decreases fuel,
{
    lemma_sp_find_bounds(s, i, 60);
    let t = sp_find(s, i, 60);
    if t < s.len() {
        lemma_sp_tag_bounds(s, t);
        match sp_tag(s, t) {
            Err(_) => {},
            Ok(g) => {
                if !g.close && fuel > 0 && !(is_kw_joint(g.name) && sp_kind_of_attrs(g.attrs)
                    is None) {
                    if g.self_closing {
                        lemma_sp_content_bounds(s, g.next, close, in_act, (fuel - 1) as nat);
                    } else {
                        lemma_sp_content_bounds(
                            s,
                            g.next,
                            Some(g.name),
                            is_kw_actuator(g.name),
                            (fuel - 1) as nat,
                        );
                        match sp_content(
                            s,
                            g.next,
                            Some(g.name),
                            is_kw_actuator(g.name),
                            (fuel - 1) as nat,
                        ) {
                            Err(_) => {},
                            Ok(inner) => {
                                lemma_sp_content_bounds(
                                    s,
                                    inner.next,
                                    close,
                                    in_act,
                                    (fuel - 1) as nat,
                                );
                            },
                        }
                    }
                }
            },
        }
    }
}

/// With a fuel budget that covers the bytes left to read, the attribute
/// reader never gives up for want of fuel.
pub proof fn lemma_sp_attrs_no_fuel_out(s: Seq<u8>, i: int, fuel: nat)
    requires
        0 <= i <= s.len(),
        fuel >= s.len() - i,
    ensures
        sp_attrs(s, i, fuel) != Err::<(Seq<(Seq<u8>, Seq<u8>)>, int), ParseError>(
            ParseError::NestingTooDeep,
        ),
    decreases fuel,
{
    lemma_sp_skip_ws_bounds(s, i);
    let w = sp_skip_ws(s, i);
    if !(w >= s.len() || s[w] == 62 || s[w] == 47) {
        lemma_sp_scan_name_bounds(s, w);
        let e = sp_scan_name(s, w);
        if e != w && e < s.len() && s[e] == 61 && e + 1 < s.len() && s[e + 1] == 34 {
            lemma_sp_find_bounds(s, e + 2, 34);
            let q = sp_find(s, e + 2, 34);
            if q < s.len() {
                lemma_sp_attrs_no_fuel_out(s, q + 1, (fuel - 1) as nat);
            }
        }
    }
}

/// The tag reader never gives up for want of fuel: its attribute budget is
/// the whole text.
pub proof fn lemma_sp_tag_no_fuel_out(s: Seq<u8>, t: int)
    requires
        0 <= t <= s.len(),
    ensures
        sp_tag(s, t) != Err::<GTag, ParseError>(ParseError::NestingTooDeep),
{
    let u = t + 1;
    if u < s.len() && s[u] != 47 {
        lemma_sp_scan_name_bounds(s, u);
        let e = sp_scan_name(s, u);
        if e != u {
            lemma_sp_attrs_no_fuel_out(s, e, s.len() as nat);
        }
    }
}

/// With a fuel budget that covers the bytes left to read, the content
/// reader never gives up for want of fuel: a text's nesting is always
/// within its own length.
pub proof fn lemma_sp_content_no_fuel_out(
    s: Seq<u8>,
    i: int,
    close: Option<Seq<u8>>,
    in_act: bool,
    fuel: nat,
)
    requires
        0 <= i <= s.len(),
        fuel >= s.len() - i,
    ensures
        sp_content(s, i, close, in_act, fuel) != Err::<GOut, ParseError>(
            ParseError::NestingTooDeep,
        ),
    decreases fuel,
{
    lemma_sp_find_bounds(s, i, 60);
    let t = sp_find(s, i, 60);
    if t < s.len() {
        lemma_sp_tag_bounds(s, t);
        lemma_sp_tag_no_fuel_out(s, t);
        match sp_tag(s, t) {
            Err(_) => {},
            Ok(g) => {
                if !g.close && !(is_kw_joint(g.name) && sp_kind_of_attrs(g.attrs) is None) {
                    if g.self_closing {
                        lemma_sp_content_no_fuel_out(s, g.next, close, in_act, (fuel - 1) as nat);
                    } else {
                        lemma_sp_content_no_fuel_out(
                            s,
                            g.next,
                            Some(g.name),
                            is_kw_actuator(g.name),
                            (fuel - 1) as nat,
                        );
                        match sp_content(
                            s,
                            g.next,
                            Some(g.name),
                            is_kw_actuator(g.name),
                            (fuel - 1) as nat,
                        ) {
                            Err(_) => {},
                            Ok(inner) => {
                                lemma_sp_content_bounds(
                                    s,
                                    g.next,
                                    Some(g.name),
                                    is_kw_actuator(g.name),
                                    (fuel - 1) as nat,
                                );
                                lemma_sp_content_no_fuel_out(
                                    s,
                                    inner.next,
                                    close,
                                    in_act,
                                    (fuel - 1) as nat,
                                );
                            },
                        }
                    }
                }
            },
        }
    }
}

/// The enclosing element's name, as a byte sequence.
pub open spec fn close_view(c: Option<&[u8]>) -> Option<Seq<u8>> {
    match c {
        Option::Some(b) => Some(b@),
        Option::None => None,
    }
}

/// Read a stretch of content; mirrors `sp_content`.
#[verifier::rlimit(60)]
fn p_content(s: &[u8], i: usize, close: Option<&[u8]>, in_act: bool, fuel: usize) -> (r: Result<
    (Vec<JointDecl>, usize, usize),
    ParseError,
>)
    requires
        i <= s@.len(),
    ensures
        ({
            let g = sp_content(s@, i as int, close_view(close), in_act, fuel as nat);
            match r {
                Ok(o) => g == Ok::<GOut, ParseError>(
                    GOut { joints: jds_view(o.0@), nu: o.1 as int, next: o.2 as int },
                ),
                Err(e) => g == Err::<GOut, ParseError>(e),
            }
        }),
    decreases fuel,
{
    let n: usize = s.len();
    let t = find_byte(s, i, 60);
    if t >= n {
        match close {
            Option::None => {
                proof {
                    assert(jds_view(Seq::<JointDecl>::empty()) =~= Seq::<
                        (JointKind, Seq<u8>),
                    >::empty());
                }
                return Ok((Vec::new(), 0, t));
            },
            Option::Some(_) => {
                return Err(ParseError::UnexpectedEnd);
            },
        }
    }
    let tag = match p_tag(s, t) {
        Ok(tag) => tag,
        Err(e) => {
            return Err(e);
        },
    };
    if tag.close {
        match close {
            Option::Some(c) => {
                if bytes_eq(tag.name.as_slice(), c) {
                    proof {
                        assert(jds_view(Seq::<JointDecl>::empty()) =~= Seq::<
                            (JointKind, Seq<u8>),
                        >::empty());
                    }
                    Ok((Vec::new(), 0, tag.next))
                } else {
                    Err(ParseError::MismatchedClose { at: t })
                }
            },
            Option::None => Err(ParseError::MismatchedClose { at: t }),
        }
    } else if fuel == 0 {
        Err(ParseError::NestingTooDeep)
    } else {
        let is_joint = kw_joint(tag.name.as_slice());
        let mut js: Vec<JointDecl> = Vec::new();
        if is_joint {
            let kind = match attr_type(&tag.attrs) {
                Some(v) => match kind_named(v.as_slice()) {
                    Some(k) => k,
                    None => {
                        return Err(ParseError::UnknownJointType { at: t });
                    },
                },
                None => JointKind::Hinge,
            };
            let name: Vec<u8> = match attr_name(&tag.attrs) {
                Some(v) => vstd::slice::slice_to_vec(v.as_slice()),
                None => Vec::new(),
            };
            js.push(JointDecl { kind, name });
        }
        proof {
            let gt = tag_view(tag);
            if is_kw_joint(gt.name) {
                assert(jds_view(js@) =~= seq![
                    (sp_kind_of_attrs(gt.attrs)->0, sp_name_of_attrs(gt.attrs)),
                ]);
            } else {
                assert(jds_view(js@) =~= Seq::<(JointKind, Seq<u8>)>::empty());
            }
        }
        let uhere: usize = if in_act {
            1
        } else {
            0
        };
        proof {
            lemma_sp_tag_bounds(s@, t as int);
        }
        if tag.self_closing {
            let (mut rest, run, rnext) = match p_content(s, tag.next, close, in_act, fuel - 1) {
                Ok(o) => o,
                Err(e) => {
                    return Err(e);
                },
            };
            proof {
                lemma_sp_content_bounds(
                    s@,
                    tag.next as int,
                    close_view(close),
                    in_act,
                    (fuel - 1) as nat,
                );
            }
            let ghost js0 = js@;
            let ghost rest0 = rest@;
            js.append(&mut rest);
            proof {
                assert(jds_view(js@) =~= jds_view(js0) + jds_view(rest0));
            }
            Ok((js, uhere + run, rnext))
        } else {
            let (mut inner, iun, inext) = match p_content(
                s,
                tag.next,
                Some(tag.name.as_slice()),
                kw_actuator(tag.name.as_slice()),
                fuel - 1,
            ) {
                Ok(o) => o,
                Err(e) => {
                    return Err(e);
                },
            };
            proof {
                lemma_sp_content_bounds(
                    s@,
                    tag.next as int,
                    Some(tag.name@),
                    is_kw_actuator(tag.name@),
                    (fuel - 1) as nat,
                );
            }
            let (mut rest, run, rnext) = match p_content(s, inext, close, in_act, fuel - 1) {
                Ok(o) => o,
                Err(e) => {
                    return Err(e);
                },
            };
            proof {
                lemma_sp_content_bounds(
                    s@,
                    inext as int,
                    close_view(close),
                    in_act,
                    (fuel - 1) as nat,
                );
            }
            let ghost js0 = js@;
            let ghost inner0 = inner@;
            let ghost rest0 = rest@;
            js.append(&mut inner);
            js.append(&mut rest);
            proof {
                assert(jds_view(js@) =~= jds_view(js0) + jds_view(inner0) + jds_view(rest0));
            }
            Ok((js, uhere + iun + run, rnext))
        }
    }
}

/// What a whole description text yields: text holding a zero byte is
/// rejected outright, since no native string can carry it; otherwise the
/// text is read as top-level content to its end.
pub open spec fn sp_parse(s: Seq<u8>) -> Result<GOut, ParseError> {
    if sp_find(s, 0, 0) < s.len() {
        Err(ParseError::IllegalNulByte { at: sp_find(s, 0, 0) as usize })
    } else {
        sp_content(s, 0, Option::None, false, s.len() as nat)
    }
}

/// Read a whole description text; mirrors `sp_parse`.
pub fn parse_bytes(s: &[u8]) -> (r: Result<(Vec<JointDecl>, usize), ParseError>)
    ensures
        ({
            let g = sp_parse(s@);
            match r {
                Ok(o) => g is Ok && g->Ok_0.joints == jds_view(o.0@) && g->Ok_0.nu == o.1 as int,
                Err(e) => g == Err::<GOut, ParseError>(e),
            }
        }),
        r is Err ==> r->Err_0 != ParseError::NestingTooDeep,
{
    let n: usize = s.len();
    let z = find_byte(s, 0, 0);
    if z < n {
        return Err(ParseError::IllegalNulByte { at: z });
    }
    proof {
        lemma_sp_content_no_fuel_out(s@, 0, Option::None, false, n as nat);
    }
    match p_content(s, 0, Option::None, false, n) {
        Ok((js, nu, _next)) => Ok((js, nu)),
        Err(e) => Err(e),
    }
}

} // verus!
