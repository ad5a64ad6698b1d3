use mujoco::CompileError;
use mujoco::JointDecl;
use mujoco::JointKind;
use mujoco::ParseError;
use mujoco::Spec;

fn chain_xml() -> &'static str {
    r#"<mujoco model="rrr">
  <worldbody>
    <body name="link1" pos="0 0 1">
      <joint type="hinge" name="j1" axis="0 0 1"/>
      <geom type="box" size="0.1 0.1 0.1"/>
      <body name="link2" pos="0.2 0 0">
        <joint type="hinge" name="j2" axis="0 0 1"/>
        <geom type="box" size="0.1 0.1 0.1"/>
        <body name="link3" pos="0.2 0 0">
          <joint type="hinge" name="j3" axis="0 0 1"/>
          <geom type="box" size="0.1 0.1 0.1"/>
        </body>
      </body>
    </body>
  </worldbody>
  <actuator>
    <motor joint="j1" gear="1"/>
    <motor joint="j2" gear="1"/>
    <motor joint="j3" gear="1"/>
  </actuator>
</mujoco>"#
}

#[test]
fn test_spec_from_str() {
    let spec = Spec::from_str(chain_xml());
    assert!(spec.is_ok());
    let model = spec.unwrap().compile().unwrap();
    assert!(model.nq() == 3);
    assert!(model.nu() == 3);
}

#[test]
fn test_spec_from_str_invalid() {
    let spec = Spec::from_str("<mujoco></mujoco");
    assert!(spec.is_err());
}

#[test]
fn chain_has_three_named_hinges() {
    let spec = Spec::from_str(chain_xml()).unwrap();
    assert_eq!(spec.joints.len(), 3);
    assert_eq!(spec.joints[0].kind, JointKind::Hinge);
    assert_eq!(spec.joints[0].name, b"j1".to_vec());
    assert_eq!(spec.joints[1].name, b"j2".to_vec());
    assert_eq!(spec.joints[2].name, b"j3".to_vec());
    assert_eq!(spec.nu, 3);
}

#[test]
fn compile_twice_is_identical() {
    let m1 = Spec::from_str(chain_xml()).unwrap().compile().unwrap();
    let m2 = Spec::from_str(chain_xml()).unwrap().compile().unwrap();
    assert_eq!(m1.nq(), m2.nq());
    assert_eq!(m1.nv(), m2.nv());
    assert_eq!(m1.nu(), m2.nu());
    assert_eq!(m1.njnt(), m2.njnt());
    assert_eq!(m1.names(), m2.names());
    assert_eq!(m1.name_jntadr(), m2.name_jntadr());
    assert_eq!(m1.jnt_qposadr(), m2.jnt_qposadr());
    assert_eq!(m1.jnt_dofadr(), m2.jnt_dofadr());
}

#[test]
fn compiled_layout_is_running_totals() {
    let xml = r#"<mujoco><worldbody>
        <body><joint type="free" name="a"/></body>
        <body><joint type="ball" name="b"/></body>
        <body><joint type="slide" name="c"/></body>
        <body><joint type="hinge" name="d"/></body>
    </worldbody></mujoco>"#;
    let model = Spec::from_str(xml).unwrap().compile().unwrap();
    assert_eq!(model.njnt(), 4);
    assert_eq!(model.nq(), 7 + 4 + 1 + 1);
    assert_eq!(model.nv(), 6 + 3 + 1 + 1);
    assert_eq!(model.jnt_qposadr(), &vec![0, 7, 11, 12]);
    assert_eq!(model.jnt_dofadr(), &vec![0, 6, 9, 10]);
    assert_eq!(model.name_jntadr(), &vec![0, 2, 4, 6]);
    assert_eq!(model.names(), &b"a\0b\0c\0d\0".to_vec());
}

#[test]
fn joint_without_type_defaults_to_hinge() {
    let spec = Spec::from_str("<mujoco><joint name=\"plain\"/></mujoco>").unwrap();
    assert_eq!(spec.joints.len(), 1);
    assert_eq!(spec.joints[0].kind, JointKind::Hinge);
}

#[test]
fn joint_without_name_gets_empty_name() {
    let spec = Spec::from_str("<mujoco><joint type=\"slide\"/></mujoco>").unwrap();
    assert_eq!(spec.joints.len(), 1);
    assert_eq!(spec.joints[0].kind, JointKind::Slide);
    assert_eq!(spec.joints[0].name, Vec::<u8>::new());
}

#[test]
fn empty_text_is_an_empty_specification() {
    let spec = Spec::from_str("").unwrap();
    assert_eq!(spec.joints.len(), 0);
    assert_eq!(spec.nu, 0);
    let model = spec.compile().unwrap();
    assert_eq!(model.njnt(), 0);
    assert_eq!(model.nq(), 0);
}

#[test]
fn unterminated_tag_is_rejected() {
    match Spec::from_str("<mujoco") {
        Err(ParseError::UnterminatedTag { at }) => assert_eq!(at, 0),
        other => panic!("expected an unterminated tag error, got {:?}", other),
    }
}

#[test]
fn empty_tag_name_is_rejected() {
    assert!(matches!(
        Spec::from_str("<mujoco><></mujoco>"),
        Err(ParseError::BadTagName { .. })
    ));
}

#[test]
fn bare_attribute_is_rejected() {
    assert!(matches!(
        Spec::from_str("<mujoco><joint frictionless/></mujoco>"),
        Err(ParseError::BadAttribute { .. })
    ));
}

#[test]
fn unterminated_attribute_is_rejected() {
    assert!(matches!(
        Spec::from_str("<mujoco><joint name=\"j1/></mujoco>"),
        Err(ParseError::UnterminatedAttribute { .. })
    ));
}

#[test]
fn mismatched_close_is_rejected() {
    assert!(matches!(
        Spec::from_str("<mujoco><body></worldbody></mujoco>"),
        Err(ParseError::MismatchedClose { .. })
    ));
    assert!(matches!(
        Spec::from_str("</mujoco>"),
        Err(ParseError::MismatchedClose { .. })
    ));
}

#[test]
fn unclosed_element_is_rejected() {
    assert!(matches!(
        Spec::from_str("<mujoco><body>"),
        Err(ParseError::UnexpectedEnd)
    ));
}

#[test]
fn unknown_joint_type_is_rejected() {
    assert!(matches!(
        Spec::from_str("<mujoco><joint type=\"screw\"/></mujoco>"),
        Err(ParseError::UnknownJointType { .. })
    ));
}

#[test]
fn nul_byte_is_rejected() {
    match Spec::from_str("<mujoco>\0</mujoco>") {
        Err(ParseError::IllegalNulByte { at }) => assert_eq!(at, 8),
        other => panic!("expected a zero-byte error, got {:?}", other),
    }
}

#[test]
fn name_with_nul_byte_fails_compilation() {
    let spec = Spec {
        joints: vec![
            JointDecl {
                kind: JointKind::Hinge,
                name: b"ok".to_vec(),
            },
            JointDecl {
                kind: JointKind::Ball,
                name: vec![106, 0, 107],
            },
        ],
        nu: 0,
    };
    match spec.compile() {
        Err(e) => assert_eq!(e, CompileError::BadName { joint: 1 }),
        Ok(_) => panic!("expected a bad-name error"),
    }
}

#[test]
fn text_is_native_checks_for_nul() {
    assert!(mujoco::scene::text_is_native("a plain path"));
    assert!(!mujoco::scene::text_is_native("split\0path"));
}
