//! The specification handle: joint and actuator declarations read from a
//! scene description, and their compilation into a model's addressing
//! tables.

use vstd::prelude::*;
use vstd::string::StringSliceAdditionalSpecFns;
use crate::errors::CompileError;
use crate::errors::ParseError;
use crate::model::Model;
use crate::model::JointKind;
use crate::model::compiled_from;
use crate::model::find_zero;
use crate::model::layout_fits;
use crate::model::lemma_names_len_mono;
use crate::model::lemma_names_table_entry;
use crate::model::lemma_names_table_len;
use crate::model::lemma_sum_nq_mono;
use crate::model::lemma_sum_nv_mono;
use crate::model::names_len;
use crate::model::names_ok;
use crate::model::names_table;
use crate::model::nq_of;
use crate::model::nv_of;
use crate::model::sum_nq;
use crate::model::sum_nv;
use crate::parse::JointDecl;
use crate::parse::jds_view;
use crate::parse::parse_bytes;
use crate::parse::sp_parse;

verus! {

/// A parsed, uncompiled specification: the joint declarations and the
/// actuator count read from a scene description.
#[derive(Debug)]
pub struct Spec {
    pub joints: Vec<JointDecl>,
    pub nu: usize,
}

impl Spec {
    /// The declarations as pairs of kind and name bytes.
    pub open spec fn decls(self) -> Seq<(JointKind, Seq<u8>)> {
        jds_view(self.joints@)
    }

    /// Parse a scene description. Succeeds exactly when the text is
    /// well-formed, and then holds the joint declarations and actuator
    /// count that `sp_parse` reads from the text's bytes.
    pub fn from_str(xml: &str) -> (r: Result<Spec, ParseError>)
        ensures
            r is Ok <==> sp_parse(xml.spec_bytes()) is Ok,
            r is Ok ==> sp_parse(xml.spec_bytes())->Ok_0.joints == r->Ok_0.decls(),
            r is Ok ==> sp_parse(xml.spec_bytes())->Ok_0.nu == r->Ok_0.nu as int,
            r is Err ==> sp_parse(xml.spec_bytes()) == Err::<
                crate::parse::GOut,
                ParseError,
            >(r->Err_0),
            r is Err ==> r->Err_0 != ParseError::NestingTooDeep,
    {
        let bytes = xml.as_bytes();
        match parse_bytes(bytes) {
            Ok((joints, nu)) => Ok(Spec { joints, nu }),
            Err(e) => Err(e),
        }
    }

    /// Compile the specification into a model, consuming it. Succeeds
    /// exactly when no declared name holds a zero byte and the summed
    /// layout fits the machine's address range; the model's tables are
    /// then the running coordinate totals and the concatenated name table
    /// of the declarations, in order.
    #[verifier::rlimit(60)]
    pub fn compile(self) -> (r: Result<Model, CompileError>)
        ensures
            r is Ok <==> (names_ok(self.decls()) && layout_fits(self.decls())),
            r is Ok ==> compiled_from(r->Ok_0, self.decls(), self.nu as int),
            r is Ok ==> r->Ok_0.wf(),
            r is Err ==> match r->Err_0 {
                CompileError::BadName { joint } => 0 <= joint < self.decls().len()
                    && self.decls()[joint as int].1.contains(0) && (forall|k: int|
                    0 <= k < joint ==> !(#[trigger] self.decls()[k].1).contains(0)),
                CompileError::TooLarge => names_ok(self.decls()) && !layout_fits(self.decls()),
            },
    {
        let ghost js = self.decls();
        let njnt = self.joints.len();
        let mut j: usize = 0;
        while j < njnt
            invariant
                j <= njnt == js.len(),
                js == jds_view(self.joints@),
                forall|k: int| 0 <= k < j ==> !(#[trigger] js[k].1).contains(0),
            decreases njnt - j,
        {
            if has_nul(&self.joints[j].name) {
                proof {
                    assert(js[j as int].1 == self.joints@[j as int].name@);
                    assert(js[j as int].1.contains(0));
                    assert(!names_ok(js));
                }
                return Err(CompileError::BadName { joint: j });
            }
            proof {
                assert(js[j as int].1 == self.joints@[j as int].name@);
            }
            j = j + 1;
        }
        assert(names_ok(js));
        if self.joints.len().checked_mul(3).is_none() {
            proof {
                assert(3 * js.len() > usize::MAX);
            }
            return Err(CompileError::TooLarge);
        }
        let mut jnt_type: Vec<JointKind> = Vec::new();
        let mut jnt_qposadr: Vec<usize> = Vec::new();
        let mut jnt_dofadr: Vec<usize> = Vec::new();
        let mut name_jntadr: Vec<usize> = Vec::new();
        let mut names: Vec<u8> = Vec::new();
        let mut nq: usize = 0;
        let mut nv: usize = 0;
        let mut j: usize = 0;
        while j < njnt
            invariant
                j <= njnt == js.len(),
                js == jds_view(self.joints@),
                names_ok(js),
                3 * js.len() <= usize::MAX,
                nq == sum_nq(js, j as int),
                nv == sum_nv(js, j as int),
                names@ == names_table(js, j as int),
                names@.len() == names_len(js, j as int),
                jnt_type@.len() == j,
                forall|k: int| 0 <= k < j ==> jnt_type@[k] == #[trigger] js[k].0,
                jnt_qposadr@.len() == j,
                forall|k: int| 0 <= k < j ==> #[trigger] jnt_qposadr@[k] == sum_nq(js, k),
                jnt_dofadr@.len() == j,
                forall|k: int| 0 <= k < j ==> #[trigger] jnt_dofadr@[k] == sum_nv(js, k),
                name_jntadr@.len() == j,
                forall|k: int| 0 <= k < j ==> #[trigger] name_jntadr@[k] == names_len(js, k),
            decreases njnt - j,
        {
            let kind = self.joints[j].kind;
            let inc_q = crate::model::joint_nq(kind);
            let inc_v = crate::model::joint_nv(kind);
            proof {
                assert(js[j as int].0 == kind);
                assert(js[j as int].1 == self.joints@[j as int].name@);
            }
            if usize::MAX - nq < inc_q {
                proof {
                    lemma_sum_nq_mono(js, j + 1, js.len() as int);
                }
                return Err(CompileError::TooLarge);
            }
            if usize::MAX - nv < inc_v {
                proof {
                    lemma_sum_nv_mono(js, j + 1, js.len() as int);
                }
                return Err(CompileError::TooLarge);
            }
            let nmlen = self.joints[j].name.len();
            if usize::MAX - names.len() < 1 || usize::MAX - names.len() - 1 < nmlen {
                proof {
                    lemma_names_len_mono(js, j + 1, js.len() as int);
                }
                return Err(CompileError::TooLarge);
            }
            jnt_type.push(kind);
            jnt_qposadr.push(nq);
            jnt_dofadr.push(nv);
            name_jntadr.push(names.len());
            let mut x: usize = 0;
            while x < self.joints[j].name.len()
                invariant
                    j < js.len(),
                    js == jds_view(self.joints@),
                    x <= self.joints@[j as int].name@.len(),
                    names@ == names_table(js, j as int) + self.joints@[j as int].name@.subrange(
                        0,
                        x as int,
                    ),
                decreases self.joints@[j as int].name@.len() - x,
            {
                let b = self.joints[j].name[x];
                names.push(b);
                proof {
                    assert(names@ =~= names_table(js, j as int)
                        + self.joints@[j as int].name@.subrange(0, x + 1));
                }
                x = x + 1;
            }
            names.push(0);
            proof {
                assert(self.joints@[j as int].name@.subrange(
                    0,
                    self.joints@[j as int].name@.len() as int,
                ) =~= self.joints@[j as int].name@);
                assert(names@ =~= names_table(js, j + 1));
                lemma_names_table_len(js, j + 1);
            }
            nq = nq + inc_q;
            nv = nv + inc_v;
            j = j + 1;
        }
        let total_names: usize = names.len();
        proof {
            assert(total_names == names_len(js, js.len() as int));
        }
        let m = Model {
            njnt,
            nq,
            nv,
            nu: self.nu,
            jnt_type,
            jnt_qposadr,
            jnt_dofadr,
            name_jntadr,
            names,
        };
        proof {
            assert(compiled_from(m, js, self.nu as int));
            assert forall|k: int| 0 <= k < m.njnt implies #[trigger] m.jnt_qposadr@[k] + nq_of(
                m.jnt_type@[k],
            ) <= m.nq by {
                lemma_sum_nq_mono(js, k + 1, js.len() as int);
            }
            assert forall|k: int| 0 <= k < m.njnt implies #[trigger] m.jnt_dofadr@[k] + nv_of(
                m.jnt_type@[k],
            ) <= m.nv by {
                lemma_sum_nv_mono(js, k + 1, js.len() as int);
            }
            assert forall|k: int| 0 <= k < m.njnt implies #[trigger] m.name_jntadr@[k]
                < m.names@.len() by {
                lemma_names_len_mono(js, k, js.len() as int);
                lemma_names_table_len(js, js.len() as int);
            }
            assert forall|k: int| 0 <= k < m.njnt implies find_zero(
                m.names@,
                #[trigger] m.name_jntadr@[k] as int,
            ) < m.names@.len() by {
                lemma_names_table_entry(js, js.len() as int, k);
                lemma_names_table_len(js, js.len() as int);
            }
            assert(m.wf());
        }
        Ok(m)
    }
}

/// Reading the same description text twice and compiling each result
/// yields models with identical counts, addressing tables and name tables:
/// the pipeline is a function of the text alone.
pub proof fn lemma_pipeline_deterministic(b: Seq<u8>, s1: Spec, s2: Spec, m1: Model, m2: Model)
    requires
        sp_parse(b) is Ok,
        s1.decls() == sp_parse(b)->Ok_0.joints,
        s2.decls() == sp_parse(b)->Ok_0.joints,
        s1.nu as int == sp_parse(b)->Ok_0.nu,
        s2.nu as int == sp_parse(b)->Ok_0.nu,
        compiled_from(m1, s1.decls(), s1.nu as int),
        compiled_from(m2, s2.decls(), s2.nu as int),
    ensures
        m1.njnt == m2.njnt,
        m1.nq == m2.nq,
        m1.nv == m2.nv,
        m1.nu == m2.nu,
        m1.jnt_type@ == m2.jnt_type@,
        m1.jnt_qposadr@ == m2.jnt_qposadr@,
        m1.jnt_dofadr@ == m2.jnt_dofadr@,
        m1.name_jntadr@ == m2.name_jntadr@,
        m1.names@ == m2.names@,
{
    crate::model::lemma_compile_deterministic(m1, m2, s1.decls(), s1.nu as int);
}

/// Whether a string can stand as a native string: it holds no zero byte.
pub fn text_is_native(s: &str) -> (r: bool)
    ensures
        r == !s.spec_bytes().contains(0u8),
{
    let b = s.as_bytes();
    let n: usize = b.len();
    let mut i: usize = 0;
    while i < n
        invariant
            i <= n == s.spec_bytes().len(),
            b@ == s.spec_bytes(),
            forall|k: int| 0 <= k < i ==> s.spec_bytes()[k] != 0,
        decreases n - i,
    {
        if b[i] == 0 {
            proof {
                assert(s.spec_bytes().contains(0u8));
            }
            return false;
        }
        i = i + 1;
    }
    true
}

/// Whether a byte vector holds a zero byte.
fn has_nul(v: &Vec<u8>) -> (r: bool)
    ensures
        r == v@.contains(0u8),
{
    let n: usize = v.len();
    let mut i: usize = 0;
    while i < n
        invariant
            i <= n == v@.len(),
            forall|k: int| 0 <= k < i ==> v@[k] != 0,
        decreases n - i,
    {
        if v[i] == 0 {
            return true;
        }
        i = i + 1;
    }
    false
}

} // verus!
