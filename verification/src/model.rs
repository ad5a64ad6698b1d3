//! The compiled model: entity counts, per-joint kinds and the addressing
//! tables that locate each joint's coordinates inside the flat state buffers.

use vstd::prelude::*;

verus! {

/// The kind of a kinematic joint. Each kind has a fixed number of position
/// coordinates and velocity degrees of freedom, independent of any model.
#[derive(Clone, Copy, Debug, PartialEq, Eq, Structural)]
pub enum JointKind {
    Free,
    Ball,
    Slide,
    Hinge,
}

/// Number of generalized position coordinates taken by a joint of kind `k`.
pub open spec fn nq_of(k: JointKind) -> nat {
    match k {
        JointKind::Free => 7,
        JointKind::Ball => 4,
        JointKind::Slide => 1,
        JointKind::Hinge => 1,
    }
}

/// Number of velocity degrees of freedom taken by a joint of kind `k`.
pub open spec fn nv_of(k: JointKind) -> nat {
    match k {
        JointKind::Free => 6,
        JointKind::Ball => 3,
        JointKind::Slide => 1,
        JointKind::Hinge => 1,
    }
}

/// Get number of generalized coordinates for a given joint kind.
pub fn joint_nq(joint_type: JointKind) -> (n: usize)
    ensures
        n == nq_of(joint_type),
{
    match joint_type {
        JointKind::Free => 7,
        JointKind::Ball => 4,
        JointKind::Slide => 1,
        JointKind::Hinge => 1,
    }
}

/// Get number of degrees of freedom for a given joint kind;
/// `joint_nv(joint_type)` is the length of a velocity-space slice for a
/// joint of that kind.
pub fn joint_nv(joint_type: JointKind) -> (n: usize)
    ensures
        n == nv_of(joint_type),
{
    match joint_type {
        JointKind::Free => 6,
        JointKind::Ball => 3,
        JointKind::Slide => 1,
        JointKind::Hinge => 1,
    }
}

/// A compiled, immutable description of a simulated system's structure.
///
/// `jnt_qposadr[j]` and `jnt_dofadr[j]` are the offsets of joint `j`'s
/// slices inside the position-indexed and velocity-indexed state buffers;
/// `name_jntadr[j]` is the offset of joint `j`'s name inside `names`, a
/// flat table of zero-terminated byte strings.
#[derive(Debug)]
pub struct Model {
    pub njnt: usize,
    pub nq: usize,
    pub nv: usize,
    pub nu: usize,
    pub jnt_type: Vec<JointKind>,
    pub jnt_qposadr: Vec<usize>,
    pub jnt_dofadr: Vec<usize>,
    pub name_jntadr: Vec<usize>,
    pub names: Vec<u8>,
}

/// The name entry starting at offset `adr` in a name table: the bytes up to
/// but not including the first zero byte at or after `adr`.
pub open spec fn name_entry(names: Seq<u8>, adr: int) -> Seq<u8> {
    names.subrange(adr, find_zero(names, adr))
}

/// Index of the first zero byte of `names` at or after `i`, or the table's
/// length if there is none.
pub open spec fn find_zero(names: Seq<u8>, i: int) -> int
    decreases names.len() - i,
{
    if i < 0 {
        0
    } else if i < names.len() {
        if names[i] == 0 {
            i
        } else {
            find_zero(names, i + 1)
        }
    } else {
        names.len() as int
    }
}

pub proof fn lemma_find_zero_bounds(names: Seq<u8>, i: int)
    requires
        0 <= i <= names.len(),
    ensures
        i <= find_zero(names, i) <= names.len(),
        find_zero(names, i) < names.len() ==> names[find_zero(names, i)] == 0,
        forall|t: int| i <= t < find_zero(names, i) ==> names[t] != 0,
    decreases names.len() - i,
{
    if i < names.len() && names[i] != 0 {
        lemma_find_zero_bounds(names, i + 1);
    }
}

/// Total position coordinates of the first `upto` joint declarations.
pub open spec fn sum_nq(js: Seq<(JointKind, Seq<u8>)>, upto: int) -> int
    decreases upto,
{
    if upto <= 0 {
        0
    } else {
        sum_nq(js, upto - 1) + nq_of(js[upto - 1].0)
    }
}

/// Total velocity degrees of freedom of the first `upto` joint declarations.
pub open spec fn sum_nv(js: Seq<(JointKind, Seq<u8>)>, upto: int) -> int
    decreases upto,
{
    if upto <= 0 {
        0
    } else {
        sum_nv(js, upto - 1) + nv_of(js[upto - 1].0)
    }
}

/// Length of the name table over the first `upto` joint declarations: each
/// name followed by its zero terminator.
pub open spec fn names_len(js: Seq<(JointKind, Seq<u8>)>, upto: int) -> int
    decreases upto,
{
    if upto <= 0 {
        0
    } else {
        names_len(js, upto - 1) + js[upto - 1].1.len() + 1
    }
}

/// The name table over the first `upto` joint declarations: the names in
/// declaration order, each followed by a zero byte.
pub open spec fn names_table(js: Seq<(JointKind, Seq<u8>)>, upto: int) -> Seq<u8>
    decreases upto,
{
    if upto <= 0 {
        Seq::empty()
    } else {
        names_table(js, upto - 1) + js[upto - 1].1 + seq![0u8]
    }
}

/// No declared name holds a zero byte.
pub open spec fn names_ok(js: Seq<(JointKind, Seq<u8>)>) -> bool {
    forall|j: int| 0 <= j < js.len() ==> !(#[trigger] js[j].1).contains(0)
}

/// The summed layout fits the machine's address range.
pub open spec fn layout_fits(js: Seq<(JointKind, Seq<u8>)>) -> bool {
    &&& sum_nq(js, js.len() as int) <= usize::MAX
    &&& sum_nv(js, js.len() as int) <= usize::MAX
    &&& names_len(js, js.len() as int) <= usize::MAX
    &&& 3 * js.len() <= usize::MAX
}

/// `m` is the compiled form of the declarations `js` with actuator count
/// `nu`: one entry per joint, offsets that are the running coordinate
/// totals of the declarations before it, and the concatenated name table.
pub open spec fn compiled_from(m: Model, js: Seq<(JointKind, Seq<u8>)>, nu: int) -> bool {
    &&& m.njnt == js.len()
    &&& m.nq == sum_nq(js, js.len() as int)
    &&& m.nv == sum_nv(js, js.len() as int)
    &&& m.nu == nu
    &&& m.jnt_type@.len() == js.len()
    &&& forall|j: int| 0 <= j < js.len() ==> m.jnt_type@[j] == #[trigger] js[j].0
    &&& m.jnt_qposadr@.len() == js.len()
    &&& forall|j: int| 0 <= j < js.len() ==> #[trigger] m.jnt_qposadr@[j] == sum_nq(js, j)
    &&& m.jnt_dofadr@.len() == js.len()
    &&& forall|j: int| 0 <= j < js.len() ==> #[trigger] m.jnt_dofadr@[j] == sum_nv(js, j)
    &&& m.name_jntadr@.len() == js.len()
    &&& forall|j: int| 0 <= j < js.len() ==> #[trigger] m.name_jntadr@[j] == names_len(js, j)
    &&& m.names@ == names_table(js, js.len() as int)
}

pub proof fn lemma_sum_nq_mono(js: Seq<(JointKind, Seq<u8>)>, a: int, b: int)
    requires
        0 <= a <= b,
    ensures
        0 <= sum_nq(js, a) <= sum_nq(js, b),
    decreases b,
{
    if a < b {
        lemma_sum_nq_mono(js, a, b - 1);
    } else if a > 0 {
        lemma_sum_nq_mono(js, a - 1, a - 1);
    }
}

pub proof fn lemma_sum_nv_mono(js: Seq<(JointKind, Seq<u8>)>, a: int, b: int)
    requires
        0 <= a <= b,
    ensures
        0 <= sum_nv(js, a) <= sum_nv(js, b),
    decreases b,
{
    if a < b {
        lemma_sum_nv_mono(js, a, b - 1);
    } else if a > 0 {
        lemma_sum_nv_mono(js, a - 1, a - 1);
    }
}

pub proof fn lemma_names_len_mono(js: Seq<(JointKind, Seq<u8>)>, a: int, b: int)
    requires
        0 <= a <= b,
    ensures
        0 <= names_len(js, a) <= names_len(js, b),
        a < b ==> names_len(js, a) < names_len(js, b),
    decreases b,
{
    if a < b {
        lemma_names_len_mono(js, a, b - 1);
    } else if a > 0 {
        lemma_names_len_mono(js, a - 1, a - 1);
    }
}

pub proof fn lemma_names_table_len(js: Seq<(JointKind, Seq<u8>)>, u: int)
    requires
        0 <= u,
    ensures
        names_table(js, u).len() == names_len(js, u),
    decreases u,
{
    if u > 0 {
        lemma_names_table_len(js, u - 1);
    }
}

/// The table over a prefix of the declarations is a prefix of the table.
pub proof fn lemma_names_table_prefix(js: Seq<(JointKind, Seq<u8>)>, j: int, u: int)
    requires
        0 <= j <= u,
    ensures
        names_table(js, u).subrange(0, names_len(js, j)) == names_table(js, j),
    decreases u,
{
    lemma_names_table_len(js, j);
    lemma_names_table_len(js, u);
    lemma_names_len_mono(js, j, u);
    if j < u {
        lemma_names_table_prefix(js, j, u - 1);
        lemma_names_table_len(js, u - 1);
        lemma_names_len_mono(js, j, u - 1);
        assert(names_table(js, u).subrange(0, names_len(js, j)) =~= names_table(
            js,
            u - 1,
        ).subrange(0, names_len(js, j)));
    } else {
        assert(names_table(js, u).subrange(0, names_len(js, j)) =~= names_table(js, j));
    }
}

/// If the bytes from `a` up to `e` are nonzero and the byte at `e` is zero,
/// the scan from `a` stops exactly at `e`.
pub proof fn lemma_find_zero_exact(s: Seq<u8>, a: int, e: int)
    requires
        0 <= a <= e < s.len(),
        s[e] == 0,
        forall|t: int| a <= t < e ==> s[t] != 0,
    ensures
        find_zero(s, a) == e,
    decreases e - a,
{
    if a < e {
        lemma_find_zero_exact(s, a + 1, e);
    }
}

/// In a compiled name table, the entry at the `j`-th name offset is exactly
/// the `j`-th declared name.
pub proof fn lemma_names_table_entry(js: Seq<(JointKind, Seq<u8>)>, u: int, j: int)
    requires
        0 <= j < u <= js.len(),
        !js[j].1.contains(0),
    ensures
        names_len(js, j) + js[j].1.len() < names_table(js, u).len(),
        find_zero(names_table(js, u), names_len(js, j)) == names_len(js, j) + js[j].1.len(),
        name_entry(names_table(js, u), names_len(js, j)) == js[j].1,
{
    let table = names_table(js, u);
    let lj = names_len(js, j);
    let nlen = js[j].1.len() as int;
    lemma_names_table_len(js, u);
    lemma_names_table_len(js, j);
    lemma_names_table_len(js, j + 1);
    lemma_names_len_mono(js, j + 1, u);
    lemma_names_len_mono(js, 0, j);
    lemma_names_table_prefix(js, j + 1, u);
    let tj1 = names_table(js, j + 1);
    assert(tj1 == names_table(js, j) + js[j].1 + seq![0u8]);
    assert forall|t: int| lj <= t <= lj + nlen implies #[trigger] table[t] == tj1[t] by {
        assert(table.subrange(0, names_len(js, j + 1))[t] == table[t]);
    }
    assert forall|t: int| lj <= t < lj + nlen implies #[trigger] table[t] != 0 by {
        assert(table[t] == tj1[t]);
        assert(tj1[t] == js[j].1[t - lj]);
        if js[j].1[t - lj] == 0 {
            assert(js[j].1.contains(0));
        }
    }
    assert(table[lj + nlen] == 0) by {
        assert(table[lj + nlen] == tj1[lj + nlen]);
        assert(tj1[lj + nlen] == 0);
    }
    lemma_find_zero_exact(table, lj, lj + nlen);
    assert forall|x: int| 0 <= x < nlen implies name_entry(table, lj)[x] == js[j].1[x] by {
        assert(name_entry(table, lj)[x] == table[lj + x]);
        assert(table[lj + x] == tj1[lj + x]);
        assert(tj1[lj + x] == js[j].1[x]);
    }
    assert(name_entry(table, lj) =~= js[j].1);
}

/// Two models compiled from the same declarations and actuator count have
/// identical counts, addressing tables and name tables.
pub proof fn lemma_compile_deterministic(
    m1: Model,
    m2: Model,
    js: Seq<(JointKind, Seq<u8>)>,
    nu: int,
)
    requires
        compiled_from(m1, js, nu),
        compiled_from(m2, js, nu),
    ensures
        m1.njnt == m2.njnt,
        m1.nq == m2.nq,
        m1.nv == m2.nv,
        m1.nu == m2.nu,
        m1.jnt_type@ == m2.jnt_type@,
        m1.jnt_qposadr@ == m2.jnt_qposadr@,
        m1.jnt_dofadr@ == m2.jnt_dofadr@,
        m1.name_jntadr@ == m2.name_jntadr@,
        m1.names@ == m2.names@,
{
    assert forall|j: int| 0 <= j < js.len() implies m1.jnt_type@[j] == m2.jnt_type@[j] by {
        assert(m1.jnt_type@[j] == js[j].0);
        assert(m2.jnt_type@[j] == js[j].0);
    }
    assert(m1.jnt_type@ =~= m2.jnt_type@);
    assert(m1.jnt_qposadr@ =~= m2.jnt_qposadr@);
    assert(m1.jnt_dofadr@ =~= m2.jnt_dofadr@);
    assert(m1.name_jntadr@ =~= m2.name_jntadr@);
}

/// In a compiled model, the name entry at joint `j`'s name offset is
/// exactly the name that joint `j` was declared with.
pub proof fn lemma_compiled_name_faithful(
    m: Model,
    js: Seq<(JointKind, Seq<u8>)>,
    nu: int,
    j: int,
)
    requires
        compiled_from(m, js, nu),
        names_ok(js),
        0 <= j < js.len(),
    ensures
        name_entry(m.names@, m.name_jntadr@[j] as int) == js[j].1,
{
    lemma_names_table_entry(js, js.len() as int, j);
}

impl Clone for Model {
    /// A full deep copy with independent storage and equal tables.
    fn clone(&self) -> (m: Self)
        ensures
            m.njnt == self.njnt,
            m.nq == self.nq,
            m.nv == self.nv,
            m.nu == self.nu,
            m.jnt_type@ == self.jnt_type@,
            m.jnt_qposadr@ == self.jnt_qposadr@,
            m.jnt_dofadr@ == self.jnt_dofadr@,
            m.name_jntadr@ == self.name_jntadr@,
            m.names@ == self.names@,
            self.wf() ==> m.wf(),
    {
        Model {
            njnt: self.njnt,
            nq: self.nq,
            nv: self.nv,
            nu: self.nu,
            jnt_type: vstd::slice::slice_to_vec(self.jnt_type.as_slice()),
            jnt_qposadr: vstd::slice::slice_to_vec(self.jnt_qposadr.as_slice()),
            jnt_dofadr: vstd::slice::slice_to_vec(self.jnt_dofadr.as_slice()),
            name_jntadr: vstd::slice::slice_to_vec(self.name_jntadr.as_slice()),
            names: vstd::slice::slice_to_vec(self.names.as_slice()),
        }
    }
}

impl Model {
    /// Well-formedness: the addressing tables have one entry per joint, every
    /// joint's slice fits inside the corresponding buffer length, every name
    /// offset points into the name table, and each name is terminated.
    pub open spec fn wf(self) -> bool {
        &&& self.jnt_type@.len() == self.njnt
        &&& self.jnt_qposadr@.len() == self.njnt
        &&& self.jnt_dofadr@.len() == self.njnt
        &&& self.name_jntadr@.len() == self.njnt
        &&& forall|j: int|
            0 <= j < self.njnt ==> #[trigger] self.jnt_qposadr@[j] + nq_of(self.jnt_type@[j])
                <= self.nq
        &&& forall|j: int|
            0 <= j < self.njnt ==> #[trigger] self.jnt_dofadr@[j] + nv_of(self.jnt_type@[j])
                <= self.nv
        &&& forall|j: int|
            0 <= j < self.njnt ==> #[trigger] self.name_jntadr@[j] < self.names@.len()
        &&& forall|j: int|
            0 <= j < self.njnt ==> find_zero(self.names@, #[trigger] self.name_jntadr@[j] as int)
                < self.names@.len()
        &&& 3 * self.njnt <= usize::MAX
    }

    /// Joint count.
    pub fn njnt(&self) -> (n: usize)
        ensures
            n == self.njnt,
    {
        self.njnt
    }

    /// Generalized position coordinate count.
    pub fn nq(&self) -> (n: usize)
        ensures
            n == self.nq,
    {
        self.nq
    }

    /// Velocity degree-of-freedom count.
    pub fn nv(&self) -> (n: usize)
        ensures
            n == self.nv,
    {
        self.nv
    }

    /// Actuator count.
    pub fn nu(&self) -> (n: usize)
        ensures
            n == self.nu,
    {
        self.nu
    }

    /// Per-joint kinds.
    pub fn jnt_type(&self) -> (v: &Vec<JointKind>)
        ensures
            v@ == self.jnt_type@,
    {
        &self.jnt_type
    }

    /// Per-joint position offsets.
    pub fn jnt_qposadr(&self) -> (v: &Vec<usize>)
        ensures
            v@ == self.jnt_qposadr@,
    {
        &self.jnt_qposadr
    }

    /// Per-joint velocity offsets.
    pub fn jnt_dofadr(&self) -> (v: &Vec<usize>)
        ensures
            v@ == self.jnt_dofadr@,
    {
        &self.jnt_dofadr
    }

    /// Per-joint name offsets into the name table.
    pub fn name_jntadr(&self) -> (v: &Vec<usize>)
        ensures
            v@ == self.name_jntadr@,
    {
        &self.name_jntadr
    }

    /// The name table: zero-terminated names, concatenated.
    pub fn names(&self) -> (v: &Vec<u8>)
        ensures
            v@ == self.names@,
    {
        &self.names
    }
}

} // verus!
