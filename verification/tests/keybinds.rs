use character_controller::config::{Bindings, Config, NetMode};
use character_controller::keys::{
    expecting, keybind, keybind_list, str_to_keybind, Binding, KeyCode, KeybindError, KEY_COUNT,
};
use character_controller::single::Single;
use serde::de::{self, Deserialize, Deserializer, MapAccess, SeqAccess, Visitor};
use std::fmt;

/// Hands a binding error on as an error of the deserializer, in the
/// library's words.
fn refuse<E: de::Error>(e: KeybindError) -> E {
    match e {
        KeybindError::InvalidLength(found, expected) => {
            E::invalid_length(found, &expecting(expected).as_str())
        }
        other => E::custom(other.message()),
    }
}

/// Reads a name, or the first `N` names of a list, from the document and
/// has the library turn them into keys.
struct KeybindVisitor<const N: usize>;

impl<const N: usize> KeybindVisitor<N> {
    fn read<E: de::Error>(binding: Binding) -> Result<[KeyCode; N], E> {
        match keybind_list(&binding, N) {
            Ok(keys) => {
                let mut out = [KeyCode::E; N];
                out.copy_from_slice(&keys);
                Ok(out)
            }
            Err(e) => Err(refuse(e)),
        }
    }
}

impl<'de, const N: usize> Visitor<'de> for KeybindVisitor<N> {
    type Value = [KeyCode; N];

    fn expecting(&self, formatter: &mut fmt::Formatter) -> fmt::Result {
        formatter.write_str(&expecting(N))
    }

    fn visit_str<E: de::Error>(self, s: &str) -> Result<Self::Value, E> {
        Self::read(Binding::Name(s.to_string()))
    }

    fn visit_seq<A: SeqAccess<'de>>(self, mut v: A) -> Result<Self::Value, A::Error> {
        let mut names = Vec::new();
        for _ in 0..N {
            let next: Option<String> = v.next_element()?;
            match next {
                Some(name) => names.push(name),
                None => break,
            }
        }
        Self::read(Binding::List(names))
    }
}

struct Keys<const N: usize>([KeyCode; N]);

impl<'de, const N: usize> Deserialize<'de> for Keys<N> {
    fn deserialize<D: Deserializer<'de>>(de: D) -> Result<Self, D::Error> {
        Ok(Keys(de.deserialize_any(KeybindVisitor::<N>)?))
    }
}

struct Key(KeyCode);

impl<'de> Deserialize<'de> for Key {
    fn deserialize<D: Deserializer<'de>>(de: D) -> Result<Self, D::Error> {
        match de.deserialize_any(KeybindVisitor::<1>) {
            Ok([keybind]) => Ok(Key(keybind)),
            Err(e) => Err(e),
        }
    }
}

#[derive(Debug)]
struct ConfigTest {
    pub zoom_sens: f32,
    pub movement: [KeyCode; 4],
    pub jump: KeyCode,
    pub crouch: KeyCode,
}

struct ConfigTestVisitor;

impl<'de> Visitor<'de> for ConfigTestVisitor {
    type Value = ConfigTest;

    fn expecting(&self, formatter: &mut fmt::Formatter) -> fmt::Result {
        formatter.write_str("struct ConfigTest")
    }

    fn visit_map<A: MapAccess<'de>>(self, mut map: A) -> Result<ConfigTest, A::Error> {
        let mut zoom_sens = None;
        let mut movement = None;
        let mut jump = None;
        let mut crouch = None;
        while let Some(field) = map.next_key::<String>()? {
            match field.as_str() {
                "zoom_sens" => zoom_sens = Some(map.next_value::<f32>()?),
                "movement" => movement = Some(map.next_value::<Keys<4>>()?.0),
                "jump" => jump = Some(map.next_value::<Key>()?.0),
                "crouch" => crouch = Some(map.next_value::<Key>()?.0),
                _ => {
                    map.next_value::<de::IgnoredAny>()?;
                }
            }
        }
        Ok(ConfigTest {
            zoom_sens: zoom_sens.ok_or_else(|| de::Error::missing_field("zoom_sens"))?,
            movement: movement.ok_or_else(|| de::Error::missing_field("movement"))?,
            jump: jump.ok_or_else(|| de::Error::missing_field("jump"))?,
            crouch: crouch.ok_or_else(|| de::Error::missing_field("crouch"))?,
        })
    }
}

impl<'de> Deserialize<'de> for ConfigTest {
    fn deserialize<D: Deserializer<'de>>(de: D) -> Result<Self, D::Error> {
        de.deserialize_map(ConfigTestVisitor)
    }
}

fn names(list: &[&str]) -> Binding {
    Binding::List(list.iter().map(|s| s.to_string()).collect())
}

fn name(s: &str) -> Binding {
    Binding::Name(s.to_string())
}

#[test]
fn reads_yaml_keybind_configs() {
    let default_config = r#"---
movement: ["W", "A", "S", "D"]
jump: "Space"
crouch: ["J"]
zoom_sens: 2.2
        "#;
    let config: ConfigTest = serde_yaml::from_str(&default_config).unwrap();
    assert_eq!(&config.movement, &[KeyCode::W, KeyCode::A, KeyCode::S, KeyCode::D]);
    assert_eq!(&config.jump, &KeyCode::Space);
    assert_eq!(&config.crouch, &KeyCode::J);
}

#[test]
fn fails_to_read_bad_config_long() {
    let default_config = r#"---
movement: ["W", "A", "S", "D", "F"]
        "#;
    let err = serde_yaml::from_str::<ConfigTest>(&default_config).unwrap_err();
    assert_eq!(
        &err.to_string(),
        "movement: invalid length 5, expected sequence of 4 elements at line 2 column 11"
    );
}

#[test]
fn fails_to_read_bad_config_short() {
    let default_config = r#"---
movement: ["W", "A"]
        "#;
    let err = serde_yaml::from_str::<ConfigTest>(&default_config).unwrap_err();
    assert_eq!(
        &err.to_string(),
        "movement: invalid length 2, expected sequence of 4 keybinds at line 2 column 11"
    );
}

#[test]
fn fails_to_read_bad_config_list_in_single() {
    let default_config = r#"---
jump: ["W", "A"]
        "#;
    let err = serde_yaml::from_str::<ConfigTest>(&default_config).unwrap_err();
    assert_eq!(
        &err.to_string(),
        "jump: invalid length 2, expected sequence of 1 element at line 2 column 7"
    );
}

#[test]
fn fails_invalid_bind() {
    let default_config = r#"---
jump: "NOTKEY"
        "#;
    let err = serde_yaml::from_str::<ConfigTest>(&default_config).unwrap_err();
    assert_eq!(
        &err.to_string(),
        "jump: NOTKEY is not the name of a valid key at line 2 column 7"
    );
}

#[test]
fn quotes_optional() {
    let default_config = r#"---
movement: [W, A, S, D]
jump: Space
crouch: [J]
zoom_sens: 2.2
        "#;
    let config: ConfigTest = serde_yaml::from_str(&default_config).unwrap();
    assert_eq!(&config.movement, &[KeyCode::W, KeyCode::A, KeyCode::S, KeyCode::D]);
    assert_eq!(&config.jump, &KeyCode::Space);
    assert_eq!(&config.crouch, &KeyCode::J);
    assert_eq!(config.zoom_sens, 2.2);
}

#[test]
fn single_name_for_a_list_is_refused() {
    let err = serde_yaml::from_str::<ConfigTest>("---\nmovement: W\n").unwrap_err();
    assert_eq!(
        &err.to_string(),
        "movement: This field should be a list of 4 binds, not a single bind at line 2 column 11"
    );
    assert!(matches!(keybind_list(&name("W"), 4), Err(KeybindError::NotAList(4))));
    assert!(matches!(keybind_list(&name("W"), 0), Err(KeybindError::NotAList(0))));
}

#[test]
fn every_key_is_found_by_its_name() {
    assert_eq!(KEY_COUNT, 163);
    for i in 0..KEY_COUNT {
        let key = KeyCode::nth(i);
        assert_eq!(str_to_keybind(key.name()).unwrap(), key);
        assert_eq!(format!("{:?}", key), key.name());
        for j in 0..i {
            assert_ne!(KeyCode::nth(j), key);
            assert_ne!(KeyCode::nth(j).name(), key.name());
        }
    }
    for i in 0..KEY_COUNT {
        assert_eq!(KeyCode::nth(i).place(), i);
    }
    assert_eq!(KeyCode::nth(0), KeyCode::Key1);
    assert_eq!(KeyCode::nth(10), KeyCode::A);
    assert_eq!(KeyCode::nth(162), KeyCode::Cut);
}

#[test]
fn names_are_matched_exactly() {
    assert_eq!(str_to_keybind("Space").unwrap(), KeyCode::Space);
    assert_eq!(str_to_keybind("Key0").unwrap(), KeyCode::Key0);
    assert_eq!(str_to_keybind("OEM102").unwrap(), KeyCode::OEM102);
    assert_eq!(str_to_keybind("Asterix").unwrap(), KeyCode::Asterix);
    for bad in ["", "space", "SPACE", "Space ", " Space", "Spac", "Spacebar", "w", "0", "Oem102", "W\n"] {
        match str_to_keybind(bad) {
            Err(KeybindError::UnknownKey(name)) => assert_eq!(name, bad),
            other => panic!("{bad:?}: {other:?}"),
        }
    }
}

#[test]
fn lists_are_read_in_order() {
    assert_eq!(
        keybind_list(&names(&["W", "A", "S", "D"]), 4).unwrap(),
        vec![KeyCode::W, KeyCode::A, KeyCode::S, KeyCode::D]
    );
    // What stands behind the keys that are needed is not looked at.
    assert_eq!(
        keybind_list(&names(&["Up", "Down", "nonsense"]), 2).unwrap(),
        vec![KeyCode::Up, KeyCode::Down]
    );
    assert_eq!(keybind_list(&names(&[]), 0).unwrap(), vec![]);
    assert_eq!(keybind_list(&names(&["Q"]), 0).unwrap(), vec![]);
    assert_eq!(keybind_list(&name("Tab"), 1).unwrap(), vec![KeyCode::Tab]);
}

#[test]
fn short_lists_and_unknown_names_are_errors() {
    assert!(matches!(
        keybind_list(&names(&["W", "A"]), 4),
        Err(KeybindError::InvalidLength(2, 4))
    ));
    assert!(matches!(keybind_list(&names(&[]), 1), Err(KeybindError::InvalidLength(0, 1))));
    match keybind_list(&names(&["W", "what", "S", "who"]), 4) {
        Err(KeybindError::UnknownKey(name)) => assert_eq!(name, "what"),
        other => panic!("{other:?}"),
    }
    // A bad name counts before the list running out.
    match keybind_list(&names(&["W", "what"]), 4) {
        Err(KeybindError::UnknownKey(name)) => assert_eq!(name, "what"),
        other => panic!("{other:?}"),
    }
    match keybind_list(&name("what"), 1) {
        Err(KeybindError::UnknownKey(name)) => assert_eq!(name, "what"),
        other => panic!("{other:?}"),
    }
}

#[test]
fn single_binds() {
    assert_eq!(keybind(&name("Space")).unwrap(), KeyCode::Space);
    assert_eq!(keybind(&names(&["J"])).unwrap(), KeyCode::J);
    assert_eq!(keybind(&names(&["J", "K"])).unwrap(), KeyCode::J);
    assert!(matches!(keybind(&names(&[])), Err(KeybindError::InvalidLength(0, 1))));
    assert!(matches!(keybind(&name("NOTKEY")), Err(KeybindError::UnknownKey(_))));
}

#[test]
fn config_from_bindings() {
    let bindings = Bindings {
        movement: names(&["W", "A", "S", "D"]),
        specials: names(&["E", "F"]),
        jump: name("Space"),
        dash: names(&["LShift"]),
    };
    let sens = Single::from_bits(2.2f32.to_bits());
    let zoom = Single::from_bits(1.5f32.to_bits());
    let config = Config::from_bindings(sens, zoom, &bindings, Some(NetMode::Client)).unwrap();
    assert_eq!(config.sens.to_bits(), 2.2f32.to_bits());
    assert_eq!(config.zoom_sens.to_bits(), 1.5f32.to_bits());
    assert_eq!(config.movement, [KeyCode::W, KeyCode::A, KeyCode::S, KeyCode::D]);
    assert_eq!(config.specials, [KeyCode::E, KeyCode::F]);
    assert_eq!(config.jump, KeyCode::Space);
    assert_eq!(config.dash, KeyCode::LShift);
    assert_eq!(config.net_mode, Some(NetMode::Client));
}

#[test]
fn config_reports_the_first_bad_binding() {
    let good = Bindings {
        movement: names(&["W", "A", "S", "D"]),
        specials: names(&["E", "F"]),
        jump: name("Space"),
        dash: name("LShift"),
    };
    let sens = Single::from_bits(1.0f32.to_bits());

    let mut bad = good.clone();
    bad.specials = names(&["E"]);
    bad.dash = name("nope");
    assert!(matches!(
        Config::from_bindings(sens, sens, &bad, None),
        Err(KeybindError::InvalidLength(1, 2))
    ));

    let mut bad = good.clone();
    bad.movement = name("W");
    assert!(matches!(
        Config::from_bindings(sens, sens, &bad, None),
        Err(KeybindError::NotAList(4))
    ));

    let mut bad = good.clone();
    bad.jump = name("Jump");
    match Config::from_bindings(sens, sens, &bad, None) {
        Err(KeybindError::UnknownKey(name)) => assert_eq!(name, "Jump"),
        other => panic!("{other:?}"),
    }
}

#[test]
fn error_messages_are_spelled_out() {
    assert_eq!(
        KeybindError::UnknownKey("what".to_string()).message(),
        "what is not the name of a valid key"
    );
    assert_eq!(
        KeybindError::UnknownKey(String::new()).message(),
        " is not the name of a valid key"
    );
    assert_eq!(
        KeybindError::NotAList(4).message(),
        "This field should be a list of 4 binds, not a single bind"
    );
    assert_eq!(
        KeybindError::NotAList(0).message(),
        "This field should be a list of 0 binds, not a single bind"
    );
    assert_eq!(
        KeybindError::NotAList(1203).message(),
        "This field should be a list of 1203 binds, not a single bind"
    );
    assert_eq!(
        KeybindError::InvalidLength(2, 4).message(),
        "invalid length 2, expected sequence of 4 keybinds"
    );
    assert_eq!(
        KeybindError::InvalidLength(10, 987_654_321).message(),
        "invalid length 10, expected sequence of 987654321 keybinds"
    );
}

#[test]
fn expectation_names_the_number_of_keys() {
    assert_eq!(expecting(0), "sequence of 0 keybinds");
    assert_eq!(expecting(4), "sequence of 4 keybinds");
    assert_eq!(expecting(100), "sequence of 100 keybinds");
    assert_eq!(expecting(usize::MAX), format!("sequence of {} keybinds", usize::MAX));
}

#[test]
fn errors_of_reading_carry_their_message() {
    assert_eq!(
        keybind_list(&name("W"), 4).unwrap_err().message(),
        "This field should be a list of 4 binds, not a single bind"
    );
    assert_eq!(
        keybind_list(&names(&["W", "A"]), 4).unwrap_err().message(),
        "invalid length 2, expected sequence of 4 keybinds"
    );
    assert_eq!(
        str_to_keybind("Jump").unwrap_err().message(),
        "Jump is not the name of a valid key"
    );
    let through: serde_json::Error = refuse(KeybindError::InvalidLength(2, 4));
    assert_eq!(through.to_string(), KeybindError::InvalidLength(2, 4).message());
}
