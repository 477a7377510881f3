use palbox::admin::{
    ban_command, broadcast_command, kick_command, parse_players, underscore_spaces, SAVE,
    SHOW_PLAYERS,
};

#[test]
fn command_texts() {
    assert_eq!(kick_command("7656119"), "KickPlayer 7656119");
    assert_eq!(ban_command("7656119"), "BanPlayer 7656119");
    assert_eq!(SAVE, "Save");
    assert_eq!(SHOW_PLAYERS, "ShowPlayers");
}

#[test]
fn broadcast_keeps_one_argument() {
    assert_eq!(broadcast_command("server restart in 5 min"), "Broadcast server_restart_in_5_min");
    assert_eq!(broadcast_command(""), "Broadcast ");
    assert_eq!(underscore_spaces("  a  b "), "__a__b_");
    assert_eq!(underscore_spaces("héllo wörld"), "héllo_wörld");
    assert_eq!(underscore_spaces("tab\tstays"), "tab\tstays");
}

#[test]
fn players_from_csv() {
    let raw = "name,playeruid,steamid\nAlice,123,7656001\r\n\n  Bob ,456,7656002  \n";
    let ps = parse_players(raw);
    assert_eq!(ps.len(), 2);
    assert_eq!(ps[0].name, "Alice");
    assert_eq!(ps[0].playeruid, "123");
    assert_eq!(ps[0].steamid, "7656001");
    assert_eq!(ps[1].name, "Bob ");
    assert_eq!(ps[1].playeruid, "456");
    assert_eq!(ps[1].steamid, "7656002");
}

#[test]
fn players_skip_short_lines_and_keep_extra_commas() {
    let raw = "only,two\nCarol,9,76,extra\nname,again,header\n,,";
    let ps = parse_players(raw);
    assert_eq!(ps.len(), 2);
    assert_eq!(ps[0].name, "Carol");
    assert_eq!(ps[0].playeruid, "9");
    assert_eq!(ps[0].steamid, "76,extra");
    assert_eq!(ps[1].name, "");
    assert_eq!(ps[1].playeruid, "");
    assert_eq!(ps[1].steamid, "");
}

#[test]
fn no_players() {
    assert!(parse_players("").is_empty());
    assert!(parse_players("name,playeruid,steamid\n").is_empty());
}
