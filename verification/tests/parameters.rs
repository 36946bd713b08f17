use harmoniq::float_order::{bits_at_most, bits_equal, bits_less};
use harmoniq::parameters::{
    ContinuousParameterOptions, ParameterDefinition, ParameterId, ParameterKind, ParameterLayout, ParameterSet,
    ParameterValue, PluginParameterError,
};
use harmoniq::registry::NativePlugin;

fn samples() -> Vec<f32> {
    vec![
        0.0,
        -0.0,
        1.0,
        -1.0,
        0.5,
        -2.5,
        f32::MIN_POSITIVE,
        -f32::MIN_POSITIVE,
        1e-45,
        -1e-45,
        f32::MAX,
        f32::MIN,
        f32::INFINITY,
        f32::NEG_INFINITY,
        f32::NAN,
        -f32::NAN,
        f32::from_bits(0x7FC0_0001),
        123.456,
    ]
}

#[test]
fn bit_order_agrees_with_f32_comparison() {
    for a in samples() {
        for b in samples() {
            assert_eq!(bits_less(a.to_bits(), b.to_bits()), a < b, "{a} < {b}");
            assert_eq!(bits_at_most(a.to_bits(), b.to_bits()), a <= b, "{a} <= {b}");
            assert_eq!(bits_equal(a.to_bits(), b.to_bits()), a == b, "{a} == {b}");
        }
    }
}

fn id(text: &str) -> ParameterId {
    ParameterId::new(text.to_string())
}

fn gain_kind() -> ParameterKind {
    ParameterKind::continuous((-60.0f32).to_bits(), 12.0f32.to_bits(), 0.0f32.to_bits())
}

fn layout() -> ParameterLayout {
    ParameterLayout::new(vec![
        ParameterDefinition::new(id("gain"), "Gain".into(), gain_kind()).with_unit("dB".into()),
        ParameterDefinition::new(id("bypass"), "Bypass".into(), ParameterKind::Toggle { default: false }),
        ParameterDefinition::new(
            id("mode"),
            "Mode".into(),
            ParameterKind::Choice { options: vec!["a".into(), "b".into(), "c".into()], default: 1 },
        )
        .with_description("Filter mode".into()),
    ])
}

#[test]
fn validation_accepts_and_refuses() {
    let gain = gain_kind();
    assert!(gain.validate(&id("gain"), &ParameterValue::Continuous(12.0f32.to_bits())).is_ok());
    assert!(gain.validate(&id("gain"), &ParameterValue::Continuous(f32::NAN.to_bits())).is_ok());
    match gain.validate(&id("gain"), &ParameterValue::Continuous(12.5f32.to_bits())) {
        Err(PluginParameterError::OutOfRange { id, min_bits, max_bits, value_bits }) => {
            assert_eq!(id.as_str(), "gain");
            assert_eq!(f32::from_bits(min_bits), -60.0);
            assert_eq!(f32::from_bits(max_bits), 12.0);
            assert_eq!(f32::from_bits(value_bits), 12.5);
        }
        other => panic!("unexpected {other:?}"),
    }
    match gain.validate(&id("gain"), &ParameterValue::Toggle(true)) {
        Err(PluginParameterError::WrongType { expected, actual, .. }) => {
            assert_eq!((expected, actual), ("continuous", "toggle"));
        }
        other => panic!("unexpected {other:?}"),
    }
    let choice = ParameterKind::Choice { options: vec!["x".into()], default: 0 };
    match choice.validate(&id("mode"), &ParameterValue::Choice(1)) {
        Err(PluginParameterError::InvalidChoice { index, count, .. }) => assert_eq!((index, count), (1, 1)),
        other => panic!("unexpected {other:?}"),
    }
}

#[test]
fn parameter_set_starts_at_defaults_and_validates_changes() {
    let mut set = ParameterSet::new(layout());
    assert_eq!(set.get(&id("gain")), Some(&ParameterValue::Continuous(0.0f32.to_bits())));
    assert_eq!(set.get(&id("bypass")), Some(&ParameterValue::Toggle(false)));
    assert_eq!(set.get(&id("mode")), Some(&ParameterValue::Choice(1)));
    assert!(set.get(&id("missing")).is_none());

    assert!(set.set(&id("bypass"), ParameterValue::Toggle(true)).is_ok());
    assert_eq!(set.get(&id("bypass")), Some(&ParameterValue::Toggle(true)));
    assert!(matches!(
        set.set(&id("missing"), ParameterValue::Toggle(true)),
        Err(PluginParameterError::UnknownParameter(_))
    ));
    assert!(set.set(&id("mode"), ParameterValue::Choice(3)).is_err());
    assert_eq!(set.get(&id("mode")), Some(&ParameterValue::Choice(1)));
    assert_eq!(set.iter().len(), 3);
    let mut seen: Vec<&str> = set.iter().iter().map(|(k, _)| k.as_str()).collect();
    seen.sort();
    seen.dedup();
    assert_eq!(seen.len(), 3);
    assert_eq!(set.layout().parameters().len(), 3);
    assert_eq!(set.layout().find(&id("mode")).unwrap().description.as_deref(), Some("Filter mode"));
    assert_eq!(set.layout().find(&id("gain")).unwrap().unit.as_deref(), Some("dB"));
}

#[test]
fn value_accessors_and_equality() {
    let v = ParameterValue::Continuous(0.25f32.to_bits());
    assert_eq!(v.as_continuous().map(f32::from_bits), Some(0.25));
    assert_eq!(v.as_toggle(), None);
    assert_eq!(ParameterValue::from(true).as_toggle(), Some(true));
    assert_eq!(ParameterValue::from(4usize).as_choice(), Some(4));
    assert_eq!(v.type_label(), "continuous");
    assert!(ParameterValue::Continuous(0.0f32.to_bits()) == ParameterValue::Continuous((-0.0f32).to_bits()));
    assert!(ParameterValue::Continuous(f32::NAN.to_bits()) != ParameterValue::Continuous(f32::NAN.to_bits()));
    let opts = ContinuousParameterOptions::new(0.0f32.to_bits(), 1.0f32.to_bits(), 0.5f32.to_bits())
        .with_step(0.1f32.to_bits())
        .with_skew(2.0f32.to_bits());
    assert_eq!(opts.step_bits.map(f32::from_bits), Some(0.1));
    assert_eq!(opts.skew_bits.map(f32::from_bits), Some(2.0));
}

struct Plugin {
    parameters: ParameterSet,
    refuse_changes: bool,
    changes_seen: usize,
}

impl NativePlugin for Plugin {
    fn parameter_state(&self) -> ParameterSet {
        self.parameters.clone()
    }

    fn parameters(&self) -> &ParameterSet {
        &self.parameters
    }

    fn parameters_mut(&mut self) -> &mut ParameterSet {
        &mut self.parameters
    }

    fn accepts_change(&self, _id: &ParameterId, _value: &ParameterValue) -> bool {
        !self.refuse_changes
    }

    fn change_error(&self, id: &ParameterId, _value: &ParameterValue) -> PluginParameterError {
        PluginParameterError::UnknownParameter(id.clone())
    }

    fn on_parameter_changed(&mut self, id: &ParameterId, value: &ParameterValue) -> Result<(), PluginParameterError> {
        self.changes_seen += 1;
        if self.accepts_change(id, value) {
            Ok(())
        } else {
            Err(self.change_error(id, value))
        }
    }
}

#[test]
fn native_plugin_sets_validated_values() {
    let mut plugin = Plugin { parameters: ParameterSet::new(layout()), refuse_changes: false, changes_seen: 0 };
    assert!(plugin.set_parameter(&id("gain"), ParameterValue::Continuous((-6.0f32).to_bits())).is_ok());
    assert_eq!(
        plugin.parameter_value(&id("gain")).unwrap(),
        ParameterValue::Continuous((-6.0f32).to_bits())
    );
    assert_eq!(plugin.parameter_value(&id("bypass")).unwrap(), ParameterValue::Toggle(false));
    assert_eq!(plugin.parameter_value(&id("mode")).unwrap(), ParameterValue::Choice(1));
    assert!(plugin.set_parameter(&id("gain"), ParameterValue::Continuous(20.0f32.to_bits())).is_err());
    assert_eq!(plugin.changes_seen, 1);
    assert!(matches!(
        plugin.parameter_value(&id("nope")),
        Err(PluginParameterError::UnknownParameter(_))
    ));
    plugin.refuse_changes = true;
    assert!(matches!(
        plugin.set_parameter(&id("bypass"), ParameterValue::Toggle(true)),
        Err(PluginParameterError::UnknownParameter(p)) if p.as_str() == "bypass"
    ));
    assert_eq!(plugin.changes_seen, 2);
    assert!(plugin.set_parameter(&id("mode"), ParameterValue::Choice(7)).is_err());
    assert_eq!(plugin.changes_seen, 2);
    assert_eq!(plugin.parameter_value(&id("bypass")).unwrap(), ParameterValue::Toggle(false));
    assert_eq!(plugin.parameter_layout().parameters().len(), 3);
}

#[test]
fn cloned_sets_keep_values_and_layout() {
    let mut set = ParameterSet::new(layout());
    set.set(&id("mode"), ParameterValue::Choice(2)).unwrap();
    let copy = set.clone();
    assert_eq!(copy.get(&id("mode")), Some(&ParameterValue::Choice(2)));
    let defs = copy.layout().parameters();
    assert_eq!(defs.len(), 3);
    assert_eq!(defs[2].name, "Mode");
    assert_eq!(defs[2].description.as_deref(), Some("Filter mode"));
    match &defs[2].kind {
        ParameterKind::Choice { options, default } => {
            assert_eq!(options, &vec!["a".to_string(), "b".to_string(), "c".to_string()]);
            assert_eq!(*default, 1);
        }
        other => panic!("unexpected {other:?}"),
    }
}
