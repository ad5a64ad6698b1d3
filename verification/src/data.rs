//! The mutable simulation state bound to a model, and the per-joint views
//! derived from its flat buffers.

use vstd::prelude::*;
use vstd::slice::slice_subrange;
use vstd::slice::slice_to_vec;
use vstd::string::StringSliceAdditionalSpecFns;
use vstd::utf8::valid_utf8;
use crate::model::Model;
use crate::model::find_zero;
use crate::model::lemma_find_zero_bounds;
use crate::model::name_entry;
use crate::model::nq_of;
use crate::model::nv_of;

verus! {

/// Every element of the first `n` positions of `s` equals `x`.
pub open spec fn all_eq<T>(s: Seq<T>, n: int, x: T) -> bool {
    s.len() == n && forall|i: int| 0 <= i < n ==> s[i] == x
}

/// A vector of `n` copies of `x`.
fn filled<T: Copy>(n: usize, x: T) -> (v: Vec<T>)
    ensures
        all_eq(v@, n as int, x),
{
    let mut v: Vec<T> = Vec::new();
    let mut i: usize = 0;
    while i < n
        invariant
            i == v@.len() <= n,
            forall|k: int| 0 <= k < i ==> v@[k] == x,
        decreases n - i,
    {
        v.push(x);
        i = i + 1;
    }
    v
}

/// Mutable simulation state for one model instance. The buffers are flat
/// arrays indexed by the model's per-joint offsets; the borrowed model must
/// outlive the state, which the lifetime enforces.
#[allow(non_snake_case)]
#[derive(Debug)]
pub struct Data<'a, T> {
    pub model: &'a Model,
    pub qpos: Vec<T>,
    pub qvel: Vec<T>,
    pub qacc: Vec<T>,
    pub qacc_smooth: Vec<T>,
    pub qacc_warmstart: Vec<T>,
    pub qLDiagInv: Vec<T>,
    pub qfrc_actuator: Vec<T>,
    pub qfrc_applied: Vec<T>,
    pub qfrc_bias: Vec<T>,
    pub qfrc_constraint: Vec<T>,
    pub qfrc_inverse: Vec<T>,
    pub qfrc_passive: Vec<T>,
    pub qfrc_smooth: Vec<T>,
    pub cdof: Vec<T>,
    pub cdof_dot: Vec<T>,
    pub xanchor: Vec<T>,
    pub xaxis: Vec<T>,
}

/// A set of zero-copy slices into one `Data` instance's buffers, scoped to
/// one joint's degrees of freedom.
#[allow(non_snake_case)]
#[derive(Debug)]
pub struct JointData<'a, T> {
    pub cdof: &'a [T],
    pub cdof_dot: &'a [T],
    pub id: usize,
    pub name: &'a str,
    pub qLDiagInv: &'a [T],
    pub qacc: &'a [T],
    pub qacc_smooth: &'a [T],
    pub qacc_warmstart: &'a [T],
    pub qfrc_actuator: &'a [T],
    pub qfrc_applied: &'a [T],
    pub qfrc_bias: &'a [T],
    pub qfrc_constraint: &'a [T],
    pub qfrc_inverse: &'a [T],
    pub qfrc_passive: &'a [T],
    pub qfrc_smooth: &'a [T],
    pub qpos: &'a [T],
    pub qvel: &'a [T],
    pub xanchor: &'a [T],
    pub xaxis: &'a [T],
}

/// Index of the first zero byte of `names` at or after `start`.
fn scan_zero(names: &Vec<u8>, start: usize) -> (end: usize)
    requires
        start <= names@.len(),
        find_zero(names@, start as int) < names@.len(),
    ensures
        end == find_zero(names@, start as int),
{
    proof {
        lemma_find_zero_bounds(names@, start as int);
    }
    let n: usize = names.len();
    let mut t: usize = start;
    while names[t] != 0
        invariant
            n == names@.len(),
            start <= t <= find_zero(names@, start as int) < names@.len(),
            find_zero(names@, start as int) == find_zero(names@, t as int),
        decreases names@.len() - t,
    {
        proof {
            lemma_find_zero_bounds(names@, start as int);
        }
        t = t + 1;
    }
    t
}

/// Relies on core::str::from_utf8: when the bytes are valid UTF-8 it
/// returns the string slice viewing exactly those bytes, and otherwise an
/// error.
#[verifier::external_body]
fn bytes_to_str(b: &[u8]) -> (r: Option<&str>)
    ensures
        r is Some <==> valid_utf8(b@),
        r is Some ==> r->0.spec_bytes() == b@,
{
    match core::str::from_utf8(b) {
        Ok(s) => Some(s),
        Err(_) => None,
    }
}

/// The slices of `jd` are exactly joint `id`'s windows into `d`'s buffers:
/// the position slice starts at the joint's position offset and spans its
/// kind's coordinate count, every velocity-indexed slice starts at its
/// velocity offset and spans its kind's degree-of-freedom count, the
/// Cartesian slices hold the joint's three anchor and axis components, and
/// the name is the zero-terminated entry at the joint's name offset.
pub open spec fn joint_view_ok<'a, 'b, T>(d: Data<'a, T>, id: int, jd: JointData<'b, T>) -> bool {
    let m = d.model;
    let k = m.jnt_type@[id];
    let qa = m.jnt_qposadr@[id] as int;
    let da = m.jnt_dofadr@[id] as int;
    let na = m.name_jntadr@[id] as int;
    &&& jd.id == id
    &&& jd.name.spec_bytes() == name_entry(m.names@, na)
    &&& jd.qpos@ == d.qpos@.subrange(qa, qa + nq_of(k))
    &&& jd.qvel@ == d.qvel@.subrange(da, da + nv_of(k))
    &&& jd.qacc@ == d.qacc@.subrange(da, da + nv_of(k))
    &&& jd.qacc_smooth@ == d.qacc_smooth@.subrange(da, da + nv_of(k))
    &&& jd.qacc_warmstart@ == d.qacc_warmstart@.subrange(da, da + nv_of(k))
    &&& jd.qLDiagInv@ == d.qLDiagInv@.subrange(da, da + nv_of(k))
    &&& jd.qfrc_actuator@ == d.qfrc_actuator@.subrange(da, da + nv_of(k))
    &&& jd.qfrc_applied@ == d.qfrc_applied@.subrange(da, da + nv_of(k))
    &&& jd.qfrc_bias@ == d.qfrc_bias@.subrange(da, da + nv_of(k))
    &&& jd.qfrc_constraint@ == d.qfrc_constraint@.subrange(da, da + nv_of(k))
    &&& jd.qfrc_inverse@ == d.qfrc_inverse@.subrange(da, da + nv_of(k))
    &&& jd.qfrc_passive@ == d.qfrc_passive@.subrange(da, da + nv_of(k))
    &&& jd.qfrc_smooth@ == d.qfrc_smooth@.subrange(da, da + nv_of(k))
    &&& jd.cdof@ == d.cdof@.subrange(da, da + nv_of(k))
    &&& jd.cdof_dot@ == d.cdof_dot@.subrange(da, da + nv_of(k))
    &&& jd.xanchor@ == d.xanchor@.subrange(3 * id, 3 * id + 3)
    &&& jd.xaxis@ == d.xaxis@.subrange(3 * id, 3 * id + 3)
}

impl<'a, T> Data<'a, T> {
    /// Derive the view of joint `id`: absent when `id` is out of range, and
    /// absent when the joint's name entry is not valid text, which indicates
    /// a corrupt model.
    pub fn joint<'s>(&'s self, id: usize) -> (r: Option<JointData<'s, T>>)
        requires
            id < self.model.njnt ==> self.wf(),
        ensures
            r is Some <==> (id < self.model.njnt && valid_utf8(
                name_entry(self.model.names@, self.model.name_jntadr@[id as int] as int),
            )),
            r is Some ==> joint_view_ok(*self, id as int, r->0),
            r is Some ==> r->0.qpos@.len() == nq_of(self.model.jnt_type@[id as int]),
            r is Some ==> r->0.qvel@.len() == nv_of(self.model.jnt_type@[id as int]),
    {
        if id >= self.model.njnt {
            return None;
        }
        let na = self.model.name_jntadr[id];
        let end = scan_zero(&self.model.names, na);
        proof {
            lemma_find_zero_bounds(self.model.names@, na as int);
        }
        let name_bytes = slice_subrange(self.model.names.as_slice(), na, end);
        let name = match bytes_to_str(name_bytes) {
            Some(s) => s,
            None => {
                return None;
            },
        };
        let k = self.model.jnt_type[id];
        let nq = crate::model::joint_nq(k);
        let nv = crate::model::joint_nv(k);
        let qa = self.model.jnt_qposadr[id];
        let da = self.model.jnt_dofadr[id];
        Some(
            JointData {
                cdof: slice_subrange(self.cdof.as_slice(), da, da + nv),
                cdof_dot: slice_subrange(self.cdof_dot.as_slice(), da, da + nv),
                id,
                name,
                qLDiagInv: slice_subrange(self.qLDiagInv.as_slice(), da, da + nv),
                qacc: slice_subrange(self.qacc.as_slice(), da, da + nv),
                qacc_smooth: slice_subrange(self.qacc_smooth.as_slice(), da, da + nv),
                qacc_warmstart: slice_subrange(self.qacc_warmstart.as_slice(), da, da + nv),
                qfrc_actuator: slice_subrange(self.qfrc_actuator.as_slice(), da, da + nv),
                qfrc_applied: slice_subrange(self.qfrc_applied.as_slice(), da, da + nv),
                qfrc_bias: slice_subrange(self.qfrc_bias.as_slice(), da, da + nv),
                qfrc_constraint: slice_subrange(self.qfrc_constraint.as_slice(), da, da + nv),
                qfrc_inverse: slice_subrange(self.qfrc_inverse.as_slice(), da, da + nv),
                qfrc_passive: slice_subrange(self.qfrc_passive.as_slice(), da, da + nv),
                qfrc_smooth: slice_subrange(self.qfrc_smooth.as_slice(), da, da + nv),
                qpos: slice_subrange(self.qpos.as_slice(), qa, qa + nq),
                qvel: slice_subrange(self.qvel.as_slice(), da, da + nv),
                xanchor: slice_subrange(self.xanchor.as_slice(), 3 * id, 3 * id + 3),
                xaxis: slice_subrange(self.xaxis.as_slice(), 3 * id, 3 * id + 3),
            },
        )
    }
}

impl<'a, T> Data<'a, T> {
    /// Well-formedness: the position buffer is sized by the model's
    /// coordinate count, every velocity-indexed buffer by its degree-of-
    /// freedom count, and the Cartesian buffers hold three components per
    /// joint.
    pub open spec fn wf(self) -> bool {
        &&& self.model.wf()
        &&& self.qpos@.len() == self.model.nq
        &&& self.qvel@.len() == self.model.nv
        &&& self.qacc@.len() == self.model.nv
        &&& self.qacc_smooth@.len() == self.model.nv
        &&& self.qacc_warmstart@.len() == self.model.nv
        &&& self.qLDiagInv@.len() == self.model.nv
        &&& self.qfrc_actuator@.len() == self.model.nv
        &&& self.qfrc_applied@.len() == self.model.nv
        &&& self.qfrc_bias@.len() == self.model.nv
        &&& self.qfrc_constraint@.len() == self.model.nv
        &&& self.qfrc_inverse@.len() == self.model.nv
        &&& self.qfrc_passive@.len() == self.model.nv
        &&& self.qfrc_smooth@.len() == self.model.nv
        &&& self.cdof@.len() == self.model.nv
        &&& self.cdof_dot@.len() == self.model.nv
        &&& self.xanchor@.len() == 3 * self.model.njnt
        &&& self.xaxis@.len() == 3 * self.model.njnt
    }
}

/// In a view taken from state bound to a compiled model, the view's name
/// is exactly the name the joint was declared with.
pub proof fn lemma_view_name_declared<'a, 'b, T>(
    d: Data<'a, T>,
    id: int,
    jd: JointData<'b, T>,
    js: Seq<(crate::model::JointKind, Seq<u8>)>,
    nu: int,
)
    requires
        crate::model::compiled_from(*d.model, js, nu),
        crate::model::names_ok(js),
        0 <= id < js.len(),
        joint_view_ok(d, id, jd),
    ensures
        jd.name.spec_bytes() == js[id].1,
{
    crate::model::lemma_compiled_name_faithful(*d.model, js, nu, id);
}

impl<'a, T> Data<'a, T> {
    /// The position buffer.
    pub fn qpos(&self) -> (r: &Vec<T>)
        ensures
            r@ == self.qpos@,
    {
        &self.qpos
    }

    /// The velocity buffer.
    pub fn qvel(&self) -> (r: &Vec<T>)
        ensures
            r@ == self.qvel@,
    {
        &self.qvel
    }

    /// The acceleration buffer.
    pub fn qacc(&self) -> (r: &Vec<T>)
        ensures
            r@ == self.qacc@,
    {
        &self.qacc
    }

    /// The applied generalized force buffer.
    pub fn qfrc_applied(&self) -> (r: &Vec<T>)
        ensures
            r@ == self.qfrc_applied@,
    {
        &self.qfrc_applied
    }

    /// The Cartesian joint anchor buffer, three components per joint.
    pub fn xanchor(&self) -> (r: &Vec<T>)
        ensures
            r@ == self.xanchor@,
    {
        &self.xanchor
    }

    /// The Cartesian joint axis buffer, three components per joint.
    pub fn xaxis(&self) -> (r: &Vec<T>)
        ensures
            r@ == self.xaxis@,
    {
        &self.xaxis
    }

    /// The position buffer, mutably; every other buffer is untouched.
    pub fn qpos_mut(&mut self) -> (r: &mut Vec<T>)
        ensures
            *r == old(self).qpos,
            final(self).qpos == *final(r),
            final(self).model == old(self).model,
            final(self).qvel == old(self).qvel,
            final(self).qacc == old(self).qacc,
            final(self).qacc_smooth == old(self).qacc_smooth,
            final(self).qacc_warmstart == old(self).qacc_warmstart,
            final(self).qLDiagInv == old(self).qLDiagInv,
            final(self).qfrc_actuator == old(self).qfrc_actuator,
            final(self).qfrc_applied == old(self).qfrc_applied,
            final(self).qfrc_bias == old(self).qfrc_bias,
            final(self).qfrc_constraint == old(self).qfrc_constraint,
            final(self).qfrc_inverse == old(self).qfrc_inverse,
            final(self).qfrc_passive == old(self).qfrc_passive,
            final(self).qfrc_smooth == old(self).qfrc_smooth,
            final(self).cdof == old(self).cdof,
            final(self).cdof_dot == old(self).cdof_dot,
            final(self).xanchor == old(self).xanchor,
            final(self).xaxis == old(self).xaxis,
    {
        &mut self.qpos
    }

    /// The velocity buffer, mutably; every other buffer is untouched.
    pub fn qvel_mut(&mut self) -> (r: &mut Vec<T>)
        ensures
            *r == old(self).qvel,
            final(self).qvel == *final(r),
            final(self).model == old(self).model,
            final(self).qpos == old(self).qpos,
            final(self).qacc == old(self).qacc,
            final(self).qacc_smooth == old(self).qacc_smooth,
            final(self).qacc_warmstart == old(self).qacc_warmstart,
            final(self).qLDiagInv == old(self).qLDiagInv,
            final(self).qfrc_actuator == old(self).qfrc_actuator,
            final(self).qfrc_applied == old(self).qfrc_applied,
            final(self).qfrc_bias == old(self).qfrc_bias,
            final(self).qfrc_constraint == old(self).qfrc_constraint,
            final(self).qfrc_inverse == old(self).qfrc_inverse,
            final(self).qfrc_passive == old(self).qfrc_passive,
            final(self).qfrc_smooth == old(self).qfrc_smooth,
            final(self).cdof == old(self).cdof,
            final(self).cdof_dot == old(self).cdof_dot,
            final(self).xanchor == old(self).xanchor,
            final(self).xaxis == old(self).xaxis,
    {
        &mut self.qvel
    }

    /// The applied generalized force buffer, mutably; every other buffer is
    /// untouched.
    pub fn qfrc_applied_mut(&mut self) -> (r: &mut Vec<T>)
        ensures
            *r == old(self).qfrc_applied,
            final(self).qfrc_applied == *final(r),
            final(self).model == old(self).model,
            final(self).qpos == old(self).qpos,
            final(self).qvel == old(self).qvel,
            final(self).qacc == old(self).qacc,
            final(self).qacc_smooth == old(self).qacc_smooth,
            final(self).qacc_warmstart == old(self).qacc_warmstart,
            final(self).qLDiagInv == old(self).qLDiagInv,
            final(self).qfrc_actuator == old(self).qfrc_actuator,
            final(self).qfrc_bias == old(self).qfrc_bias,
            final(self).qfrc_constraint == old(self).qfrc_constraint,
            final(self).qfrc_inverse == old(self).qfrc_inverse,
            final(self).qfrc_passive == old(self).qfrc_passive,
            final(self).qfrc_smooth == old(self).qfrc_smooth,
            final(self).cdof == old(self).cdof,
            final(self).cdof_dot == old(self).cdof_dot,
            final(self).xanchor == old(self).xanchor,
            final(self).xaxis == old(self).xaxis,
    {
        &mut self.qfrc_applied
    }
}

impl<'a, T: Copy> Data<'a, T> {
    /// Allocate simulation state sized according to `model`, with every
    /// buffer element set to `init`.
    pub fn new(model: &'a Model, init: T) -> (d: Data<'a, T>)
        requires
            model.wf(),
        ensures
            d.wf(),
            d.model == model,
            all_eq(d.qpos@, model.nq as int, init),
            all_eq(d.qvel@, model.nv as int, init),
            all_eq(d.qacc@, model.nv as int, init),
            all_eq(d.qacc_smooth@, model.nv as int, init),
            all_eq(d.qacc_warmstart@, model.nv as int, init),
            all_eq(d.qLDiagInv@, model.nv as int, init),
            all_eq(d.qfrc_actuator@, model.nv as int, init),
            all_eq(d.qfrc_applied@, model.nv as int, init),
            all_eq(d.qfrc_bias@, model.nv as int, init),
            all_eq(d.qfrc_constraint@, model.nv as int, init),
            all_eq(d.qfrc_inverse@, model.nv as int, init),
            all_eq(d.qfrc_passive@, model.nv as int, init),
            all_eq(d.qfrc_smooth@, model.nv as int, init),
            all_eq(d.cdof@, model.nv as int, init),
            all_eq(d.cdof_dot@, model.nv as int, init),
            all_eq(d.xanchor@, 3 * model.njnt as int, init),
            all_eq(d.xaxis@, 3 * model.njnt as int, init),
    {
        let ncart: usize = 3 * model.njnt;
        Data {
            model,
            qpos: filled(model.nq, init),
            qvel: filled(model.nv, init),
            qacc: filled(model.nv, init),
            qacc_smooth: filled(model.nv, init),
            qacc_warmstart: filled(model.nv, init),
            qLDiagInv: filled(model.nv, init),
            qfrc_actuator: filled(model.nv, init),
            qfrc_applied: filled(model.nv, init),
            qfrc_bias: filled(model.nv, init),
            qfrc_constraint: filled(model.nv, init),
            qfrc_inverse: filled(model.nv, init),
            qfrc_passive: filled(model.nv, init),
            qfrc_smooth: filled(model.nv, init),
            cdof: filled(model.nv, init),
            cdof_dot: filled(model.nv, init),
            xanchor: filled(ncart, init),
            xaxis: filled(ncart, init),
        }
    }
}

impl<'a, T: Copy> Clone for Data<'a, T> {
    /// Deep-copies the state; the result is associated with the same model
    /// and is independent of the source afterward.
    fn clone(&self) -> (d: Self)
        ensures
            d.model == self.model,
            d.qpos@ == self.qpos@,
            d.qvel@ == self.qvel@,
            d.qacc@ == self.qacc@,
            d.qacc_smooth@ == self.qacc_smooth@,
            d.qacc_warmstart@ == self.qacc_warmstart@,
            d.qLDiagInv@ == self.qLDiagInv@,
            d.qfrc_actuator@ == self.qfrc_actuator@,
            d.qfrc_applied@ == self.qfrc_applied@,
            d.qfrc_bias@ == self.qfrc_bias@,
            d.qfrc_constraint@ == self.qfrc_constraint@,
            d.qfrc_inverse@ == self.qfrc_inverse@,
            d.qfrc_passive@ == self.qfrc_passive@,
            d.qfrc_smooth@ == self.qfrc_smooth@,
            d.cdof@ == self.cdof@,
            d.cdof_dot@ == self.cdof_dot@,
            d.xanchor@ == self.xanchor@,
            d.xaxis@ == self.xaxis@,
            self.wf() ==> d.wf(),
    {
        Data {
            model: self.model,
            qpos: slice_to_vec(self.qpos.as_slice()),
            qvel: slice_to_vec(self.qvel.as_slice()),
            qacc: slice_to_vec(self.qacc.as_slice()),
            qacc_smooth: slice_to_vec(self.qacc_smooth.as_slice()),
            qacc_warmstart: slice_to_vec(self.qacc_warmstart.as_slice()),
            qLDiagInv: slice_to_vec(self.qLDiagInv.as_slice()),
            qfrc_actuator: slice_to_vec(self.qfrc_actuator.as_slice()),
            qfrc_applied: slice_to_vec(self.qfrc_applied.as_slice()),
            qfrc_bias: slice_to_vec(self.qfrc_bias.as_slice()),
            qfrc_constraint: slice_to_vec(self.qfrc_constraint.as_slice()),
            qfrc_inverse: slice_to_vec(self.qfrc_inverse.as_slice()),
            qfrc_passive: slice_to_vec(self.qfrc_passive.as_slice()),
            qfrc_smooth: slice_to_vec(self.qfrc_smooth.as_slice()),
            cdof: slice_to_vec(self.cdof.as_slice()),
            cdof_dot: slice_to_vec(self.cdof_dot.as_slice()),
            xanchor: slice_to_vec(self.xanchor.as_slice()),
            xaxis: slice_to_vec(self.xaxis.as_slice()),
        }
    }
}

} // verus!
