use mujoco::Data;
use mujoco::JointDecl;
use mujoco::JointKind;
use mujoco::Spec;
use mujoco::joint_nq;
use mujoco::joint_nv;

fn four_kinds_xml() -> &'static str {
    r#"<mujoco model="kinds">
  <worldbody>
    <body name="free_body" pos="0 0 1">
      <joint type="free" name="free_joint"/>
    </body>
    <body name="ball_body" pos="1 0 0.5">
      <joint type="ball" name="ball_joint"/>
    </body>
    <body name="slide_body" pos="0 1 0.5">
      <joint type="slide" name="slide_joint" axis="1 0 0"/>
    </body>
    <body name="hinge_body" pos="-1 0 0.5">
      <joint type="hinge" name="hinge_joint" axis="0 0 1"/>
    </body>
  </worldbody>
</mujoco>"#
}

#[test]
fn dof_counts_per_kind() {
    assert_eq!(joint_nq(JointKind::Free), 7);
    assert_eq!(joint_nq(JointKind::Ball), 4);
    assert_eq!(joint_nq(JointKind::Slide), 1);
    assert_eq!(joint_nq(JointKind::Hinge), 1);
    assert_eq!(joint_nv(JointKind::Free), 6);
    assert_eq!(joint_nv(JointKind::Ball), 3);
    assert_eq!(joint_nv(JointKind::Slide), 1);
    assert_eq!(joint_nv(JointKind::Hinge), 1);
}

#[test]
fn view_slice_lengths_match_kind() {
    let model = Spec::from_str(four_kinds_xml()).unwrap().compile().unwrap();
    let data: Data<f64> = Data::new(&model, 0.0);
    let expected = [
        (JointKind::Free, 7, 6),
        (JointKind::Ball, 4, 3),
        (JointKind::Slide, 1, 1),
        (JointKind::Hinge, 1, 1),
    ];
    for (id, (kind, nq, nv)) in expected.iter().enumerate() {
        let view = data.joint(id).unwrap();
        assert_eq!(model.jnt_type()[id], *kind);
        assert_eq!(view.qpos.len(), *nq);
        assert_eq!(view.qvel.len(), *nv);
        assert_eq!(view.qacc.len(), *nv);
        assert_eq!(view.qacc_smooth.len(), *nv);
        assert_eq!(view.qacc_warmstart.len(), *nv);
        assert_eq!(view.qLDiagInv.len(), *nv);
        assert_eq!(view.qfrc_actuator.len(), *nv);
        assert_eq!(view.qfrc_applied.len(), *nv);
        assert_eq!(view.qfrc_bias.len(), *nv);
        assert_eq!(view.qfrc_constraint.len(), *nv);
        assert_eq!(view.qfrc_inverse.len(), *nv);
        assert_eq!(view.qfrc_passive.len(), *nv);
        assert_eq!(view.qfrc_smooth.len(), *nv);
        assert_eq!(view.cdof.len(), *nv);
        assert_eq!(view.cdof_dot.len(), *nv);
        assert_eq!(view.xanchor.len(), 3);
        assert_eq!(view.xaxis.len(), 3);
        assert_eq!(view.id, id);
    }
}

#[test]
fn view_names_are_the_declared_names() {
    let model = Spec::from_str(four_kinds_xml()).unwrap().compile().unwrap();
    let data: Data<f64> = Data::new(&model, 0.0);
    assert_eq!(data.joint(0).unwrap().name, "free_joint");
    assert_eq!(data.joint(1).unwrap().name, "ball_joint");
    assert_eq!(data.joint(2).unwrap().name, "slide_joint");
    assert_eq!(data.joint(3).unwrap().name, "hinge_joint");
}

#[test]
fn out_of_range_joint_is_none() {
    let model = Spec::from_str(four_kinds_xml()).unwrap().compile().unwrap();
    let data: Data<f64> = Data::new(&model, 0.0);
    assert!(data.joint(4).is_none());
    assert!(data.joint(100).is_none());
    let empty = Spec::from_str("").unwrap().compile().unwrap();
    let empty_data: Data<f64> = Data::new(&empty, 0.0);
    assert!(empty_data.joint(0).is_none());
}

#[test]
fn corrupt_name_yields_no_view() {
    let spec = Spec {
        joints: vec![JointDecl {
            kind: JointKind::Hinge,
            name: vec![0xFF, 0xFE],
        }],
        nu: 0,
    };
    let model = spec.compile().unwrap();
    let data: Data<f64> = Data::new(&model, 0.0);
    assert!(data.joint(0).is_none());
}

#[test]
fn view_slices_window_the_buffers() {
    let model = Spec::from_str(four_kinds_xml()).unwrap().compile().unwrap();
    let mut data: Data<f64> = Data::new(&model, 0.0);
    assert_eq!(data.qpos().len(), model.nq());
    assert_eq!(data.qvel().len(), model.nv());
    // the ball joint's position slice starts at offset 7
    data.qpos_mut()[7] = 2.5;
    data.qvel_mut()[6] = -1.25;
    let view = data.joint(1).unwrap();
    assert_eq!(view.qpos[0], 2.5);
    assert_eq!(view.qvel[0], -1.25);
}

#[test]
fn new_fills_every_buffer() {
    let model = Spec::from_str(four_kinds_xml()).unwrap().compile().unwrap();
    let data: Data<f64> = Data::new(&model, 1.5);
    assert!(data.qpos().iter().all(|v| *v == 1.5));
    assert!(data.qvel().iter().all(|v| *v == 1.5));
    assert!(data.qacc().iter().all(|v| *v == 1.5));
    assert!(data.xanchor().iter().all(|v| *v == 1.5));
    assert_eq!(data.xanchor().len(), 3 * model.njnt());
    assert_eq!(data.xaxis().len(), 3 * model.njnt());
}

#[test]
fn new() {
    let model = Spec::from_str(four_kinds_xml()).unwrap().compile().unwrap();
    let mut data: Data<f64> = Data::new(&model, 0.0);
    data.qpos_mut()[0] += 0.1;
    let mut data2 = data.clone();
    assert_eq!(data2.qpos(), data.qpos());
    data2.qpos_mut()[0] += 0.1;
    assert_ne!(data2.qpos(), data.qpos());
}

#[test]
fn cloned_data_is_independent() {
    let model = Spec::from_str(four_kinds_xml()).unwrap().compile().unwrap();
    let mut data: Data<f64> = Data::new(&model, 0.0);
    data.qpos_mut()[0] += 0.1;
    let mut data2 = data.clone();
    assert_eq!(data2.qpos(), data.qpos());
    data2.qpos_mut()[0] += 0.1;
    assert_ne!(data2.qpos(), data.qpos());
    assert_eq!(data.qpos()[0], 0.1);
    assert_eq!(data2.qpos()[0], 0.2);
    data.qpos_mut()[0] = 7.0;
    assert_eq!(data2.qpos()[0], 0.2);
    assert_eq!(data.joint(0).unwrap().qpos[0], 7.0);
    assert_eq!(data2.joint(0).unwrap().qpos[0], 0.2);
}

#[test]
fn cloned_model_has_equal_tables() {
    let model = Spec::from_str(four_kinds_xml()).unwrap().compile().unwrap();
    let copy = model.clone();
    assert_eq!(copy.njnt(), model.njnt());
    assert_eq!(copy.nq(), model.nq());
    assert_eq!(copy.nv(), model.nv());
    assert_eq!(copy.names(), model.names());
    assert_eq!(copy.jnt_qposadr(), model.jnt_qposadr());
    let data: Data<f64> = Data::new(&copy, 0.0);
    assert_eq!(data.joint(0).unwrap().name, "free_joint");
}

#[test]
fn applied_force_accessor_is_per_dof() {
    let model = Spec::from_str(four_kinds_xml()).unwrap().compile().unwrap();
    let mut data: Data<f64> = Data::new(&model, 0.0);
    data.qfrc_applied_mut()[9] = 3.0;
    // the slide joint's single degree of freedom sits at offset 9
    let view = data.joint(2).unwrap();
    assert_eq!(view.qfrc_applied[0], 3.0);
    assert_eq!(data.qfrc_applied()[9], 3.0);
}
