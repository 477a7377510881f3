use palbox::config::{bool_str, Rate, RateShape, ServerSettings, CONTAINER_NAME, IMAGE};

#[test]
fn env_args_are_key_value_pairs() {
    let s = ServerSettings::default();
    let args = s.env_args();
    assert_eq!(args.len() % 2, 0, "each -e must be followed by a value");
    assert!(args.iter().any(|a| a == "COMMUNITY=false"), "must stay private");
    assert!(args.iter().any(|a| a == "PLAYERS=8"));
    assert!(args.iter().any(|a| a.starts_with("EXP_RATE=1.0")));
}

#[test]
fn default_settings() {
    let s = ServerSettings::default();
    assert_eq!(s.server_name, "My PalBox Server");
    assert_eq!(s.server_description, "Hosted with PalBox");
    assert_eq!(s.server_password, "");
    assert_eq!(s.admin_password, "");
    assert_eq!(s.players, 8);
    assert_eq!(s.difficulty, "None");
    assert_eq!(s.death_penalty, "Item");
    assert_eq!(s.exp_rate.text(), "1.000000");
    assert!(!s.pvp);
    assert!(s.multithreading && s.auto_update && s.backup_enabled);
    assert_eq!(s.port, 8211);
    assert_eq!(s.rcon_port, 25575);
    assert_eq!(s.tunnel_mode, "tunnel");
    assert_eq!(s.playit_secret, "");
}

#[test]
fn default_env_args_in_full() {
    let args = ServerSettings::default().env_args();
    let want = [
        "PUID=1000",
        "PGID=1000",
        "PORT=8211",
        "PLAYERS=8",
        "SERVER_NAME=My PalBox Server",
        "SERVER_DESCRIPTION=Hosted with PalBox",
        "SERVER_PASSWORD=",
        "ADMIN_PASSWORD=",
        "COMMUNITY=false",
        "MULTITHREADING=true",
        "RCON_ENABLED=true",
        "RCON_PORT=25575",
        "UPDATE_ON_BOOT=true",
        "AUTO_UPDATE_ENABLED=true",
        "BACKUP_ENABLED=true",
        "DIFFICULTY=None",
        "DEATH_PENALTY=Item",
        "EXP_RATE=1.000000",
        "PAL_CAPTURE_RATE=1.000000",
        "DAYTIME_SPEEDRATE=1.000000",
        "NIGHTTIME_SPEEDRATE=1.000000",
        "ENABLE_PLAYER_TO_PLAYER_DAMAGE=false",
        "PVP=false",
    ];
    assert_eq!(args.len(), 2 * want.len());
    for (i, kv) in want.iter().enumerate() {
        assert_eq!(args[2 * i], "-e");
        assert_eq!(args[2 * i + 1], *kv);
    }
}

#[test]
fn env_args_follow_the_settings() {
    let mut s = ServerSettings::default();
    s.players = 32;
    s.port = 9000;
    s.rcon_port = 1;
    s.pvp = true;
    s.auto_update = false;
    s.server_password = "x=y".to_string();
    s.exp_rate = Rate::new(false, 2, 500000).unwrap();
    s.day_time_speed = Rate::new(true, 0, 1).unwrap();
    let args = s.env_args();
    for kv in [
        "PLAYERS=32",
        "PORT=9000",
        "RCON_PORT=1",
        "PVP=true",
        "ENABLE_PLAYER_TO_PLAYER_DAMAGE=true",
        "UPDATE_ON_BOOT=false",
        "AUTO_UPDATE_ENABLED=false",
        "SERVER_PASSWORD=x=y",
        "EXP_RATE=2.500000",
        "DAYTIME_SPEEDRATE=-0.000001",
        "COMMUNITY=false",
    ] {
        assert!(args.iter().any(|a| a == kv), "missing {kv}");
    }
}

#[test]
fn rate_text_has_six_decimals() {
    assert_eq!(Rate::one().text(), "1.000000");
    assert_eq!(Rate::new(false, 0, 100000).unwrap().text(), "0.100000");
    assert_eq!(Rate::new(true, 12, 345678).unwrap().text(), "-12.345678");
    assert_eq!(Rate::new(false, 0, 0).unwrap().text(), "0.000000");
    assert_eq!(
        Rate::new(false, u128::MAX, 999999).unwrap().text(),
        "340282366920938463463374607431768211455.999999"
    );
}

#[test]
fn rate_refuses_seven_digit_fractions() {
    assert!(Rate::new(false, 1, 1_000_000).is_none());
    let r = Rate::new(true, 3, 999_999).unwrap();
    assert!(r.negative());
    assert_eq!(r.whole(), 3);
    assert_eq!(r.millionths(), 999_999);
}

#[test]
fn bool_strings() {
    assert_eq!(bool_str(true), "true");
    assert_eq!(bool_str(false), "false");
}

#[test]
fn names() {
    assert_eq!(CONTAINER_NAME, "palbox-palworld");
    assert_eq!(IMAGE, "thijsvanloef/palworld-server-docker:latest");
}

#[test]
fn rate_text_of_special_values() {
    assert_eq!(Rate::not_a_number().text(), format!("{:.6}", f32::NAN));
    assert_eq!(Rate::infinity(false).text(), format!("{:.6}", f32::INFINITY));
    assert_eq!(Rate::infinity(true).text(), format!("{:.6}", f32::NEG_INFINITY));
    assert_eq!(Rate::not_a_number().shape(), RateShape::NotANumber);
    assert_eq!(Rate::one().shape(), RateShape::Number);
    assert_eq!(Rate::new(true, 0, 0).unwrap().text(), format!("{:.6}", -0.0f32));
}

#[test]
fn secret_key_is_not_passed_to_the_game_server() {
    let mut s = ServerSettings::default();
    s.playit_secret = "s3cr3t".to_string();
    assert!(!s.env_args().iter().any(|a| a.contains("s3cr3t")));
}
