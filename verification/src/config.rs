//! Server settings and their mapping to the game server image.
//!
//! The game server is driven entirely through the image's documented
//! environment variables; this module turns the settings into the
//! `-e KEY=VALUE` arguments of `docker run`.

use vstd::prelude::*;
use vstd::string::*;

use crate::text;

verus! {

/// Name of the game server container.
pub const CONTAINER_NAME: &'static str = "palbox-palworld";

/// Image the game server container runs.
pub const IMAGE: &'static str = "thijsvanloef/palworld-server-docker:latest";

/// What kind of value a rate is.
#[derive(Clone, Copy, PartialEq, Eq, Debug)]
pub enum RateShape {
    /// A decimal number.
    Number,
    /// Not a number; the game reads "NaN".
    NotANumber,
    /// An infinity; the game reads "inf" or "-inf".
    Infinite,
}

/// A rate setting as the game reads it: a decimal with six digits after the
/// point, `-`? whole `.` millionths; or "NaN", "inf", "-inf".
#[derive(Clone, Copy, Debug)]
pub struct Rate {
    shape: RateShape,
    negative: bool,
    whole: u128,
    millionths: u32,
}

impl Rate {
    #[verifier::type_invariant]
    spec fn wf(self) -> bool {
        &&& self.millionths < 1_000_000
        &&& self.shape != RateShape::Number ==> self.whole == 0 && self.millionths == 0
        &&& self.shape == RateShape::NotANumber ==> !self.negative
    }

    pub closed spec fn shape_of(self) -> RateShape {
        self.shape
    }

    pub closed spec fn is_negative(self) -> bool {
        self.negative
    }

    pub closed spec fn whole_part(self) -> nat {
        self.whole as nat
    }

    pub closed spec fn fraction(self) -> nat {
        self.millionths as nat
    }

    /// The text of the rate: sign, whole part, '.', six digits; or "NaN",
    /// "inf", "-inf".
    pub open spec fn spec_text(self) -> Seq<char> {
        let sign = if self.is_negative() {
            seq!['-']
        } else {
            seq![]
        };
        match self.shape_of() {
            RateShape::Number => sign + text::dec(self.whole_part()) + seq!['.'] + text::padded(
                self.fraction(),
                6,
            ),
            RateShape::NotANumber => "NaN"@,
            RateShape::Infinite => sign + "inf"@,
        }
    }

    /// The rate `(-)whole.millionths`; `None` when `millionths` has more than
    /// six digits.
    pub fn new(negative: bool, whole: u128, millionths: u32) -> (r: Option<Rate>)
        ensures
            millionths < 1_000_000 ==> r is Some && r->0.shape_of() == RateShape::Number
                && r->0.is_negative() == negative && r->0.whole_part() == whole
                && r->0.fraction() == millionths,
            millionths >= 1_000_000 ==> r is None,
    {
        if millionths < 1_000_000 {
            Some(Rate { shape: RateShape::Number, negative, whole, millionths })
        } else {
            None
        }
    }

    /// Not a number.
    pub fn not_a_number() -> (r: Rate)
        ensures
            r.shape_of() == RateShape::NotANumber,
            !r.is_negative(),
            r.whole_part() == 0,
            r.fraction() == 0,
    {
        Rate { shape: RateShape::NotANumber, negative: false, whole: 0, millionths: 0 }
    }

    /// Positive or negative infinity.
    pub fn infinity(negative: bool) -> (r: Rate)
        ensures
            r.shape_of() == RateShape::Infinite,
            r.is_negative() == negative,
            r.whole_part() == 0,
            r.fraction() == 0,
    {
        Rate { shape: RateShape::Infinite, negative, whole: 0, millionths: 0 }
    }

    /// The rate 1.0.
    pub fn one() -> (r: Rate)
        ensures
            r.shape_of() == RateShape::Number,
            !r.is_negative(),
            r.whole_part() == 1,
            r.fraction() == 0,
    {
        Rate { shape: RateShape::Number, negative: false, whole: 1, millionths: 0 }
    }

    pub fn shape(&self) -> (k: RateShape)
        ensures
            k == self.shape_of(),
    {
        self.shape
    }

    pub fn negative(&self) -> (b: bool)
        ensures
            b == self.is_negative(),
    {
        self.negative
    }

    pub fn whole(&self) -> (w: u128)
        ensures
            w == self.whole_part(),
    {
        self.whole
    }

    pub fn millionths(&self) -> (m: u32)
        ensures
            m == self.fraction(),
            m < 1_000_000,
    {
        proof {
            use_type_invariant(self);
        }
        self.millionths
    }

    /// The rate as the game expects it, e.g. "1.000000".
    pub fn text(&self) -> (r: String)
        ensures
            r@ == self.spec_text(),
    {
        let mut r = String::new();
        proof {
            reveal_strlit("-");
            reveal_strlit(".");
        }
        if let RateShape::NotANumber = self.shape {
            return text::owned("NaN");
        }
        if self.negative {
            r.append("-");
        }
        if let RateShape::Infinite = self.shape {
            r.append("inf");
            assert(r@ =~= self.spec_text());
            return r;
        }
        text::push_dec(&mut r, self.whole);
        r.append(".");
        text::push_padded(&mut r, self.millionths as u128, 6);
        assert(r@ =~= self.spec_text());
        r
    }
}

/// Law: a number rate's text always ends in exactly six digits after its
/// point.
pub proof fn lemma_rate_six_decimals(r: Rate)
    requires
        r.shape_of() == RateShape::Number,
    ensures
        ({
            let t = r.spec_text();
            &&& t.len() >= 8
            &&& t[t.len() - 7] == '.'
            &&& t.subrange(t.len() - 6, t.len() as int) == text::padded(r.fraction(), 6)
        }),
{
    lemma_padded_len(r.fraction(), 6);
    lemma_dec_len(r.whole_part());
    let s = if r.is_negative() {
        seq!['-']
    } else {
        seq![]
    };
    let t = r.spec_text();
    assert(t == s + text::dec(r.whole_part()) + seq!['.'] + text::padded(r.fraction(), 6));
    assert(t.subrange(t.len() - 6, t.len() as int) =~= text::padded(r.fraction(), 6));
}

pub proof fn lemma_padded_len(n: nat, k: nat)
    ensures
        text::padded(n, k).len() == k,
    decreases k,
{
    if k > 0 {
        lemma_padded_len(n / 10, (k - 1) as nat);
    }
}

pub proof fn lemma_dec_len(n: nat)
    ensures
        text::dec(n).len() >= 1,
    decreases n,
{
    if n >= 10 {
        lemma_dec_len(n / 10);
    }
}

/// Every setting of the server.
#[derive(Clone, Debug)]
pub struct ServerSettings {
    pub server_name: String,
    pub server_description: String,
    pub server_password: String,
    pub admin_password: String,
    pub players: u32,
    pub difficulty: String,
    pub death_penalty: String,
    pub exp_rate: Rate,
    pub pal_capture_rate: Rate,
    pub day_time_speed: Rate,
    pub night_time_speed: Rate,
    pub pvp: bool,
    pub multithreading: bool,
    pub auto_update: bool,
    pub backup_enabled: bool,
    pub port: u16,
    pub rcon_port: u16,
    /// "tunnel" (safe, via relay) or "direct" (port-forward, IP exposed).
    pub tunnel_mode: String,
    /// The relay agent's secret key, pasted from the relay's website.
    pub playit_secret: String,
}

/// The settings a new server starts from.
pub open spec fn is_default_settings(s: ServerSettings) -> bool {
    &&& s.server_name@ == "My PalBox Server"@
    &&& s.server_description@ == "Hosted with PalBox"@
    &&& s.server_password@ == Seq::<char>::empty()
    &&& s.admin_password@ == Seq::<char>::empty()
    &&& s.players == 8
    &&& s.difficulty@ == "None"@
    &&& s.death_penalty@ == "Item"@
    &&& is_one(s.exp_rate)
    &&& is_one(s.pal_capture_rate)
    &&& is_one(s.day_time_speed)
    &&& is_one(s.night_time_speed)
    &&& !s.pvp
    &&& s.multithreading
    &&& s.auto_update
    &&& s.backup_enabled
    &&& s.port == 8211
    &&& s.rcon_port == 25575
    &&& s.tunnel_mode@ == "tunnel"@
    &&& s.playit_secret@ == Seq::<char>::empty()
}

pub open spec fn is_one(r: Rate) -> bool {
    r.shape_of() == RateShape::Number && !r.is_negative() && r.whole_part() == 1 && r.fraction() == 0
}

impl Default for ServerSettings {
    fn default() -> (r: Self)
        ensures
            is_default_settings(r),
    {
        ServerSettings {
            server_name: text::owned("My PalBox Server"),
            server_description: text::owned("Hosted with PalBox"),
            server_password: String::new(),
            admin_password: String::new(),
            players: 8,
            difficulty: text::owned("None"),
            death_penalty: text::owned("Item"),
            exp_rate: Rate::one(),
            pal_capture_rate: Rate::one(),
            day_time_speed: Rate::one(),
            night_time_speed: Rate::one(),
            pvp: false,
            multithreading: true,
            auto_update: true,
            backup_enabled: true,
            port: 8211,
            rcon_port: 25575,
            tunnel_mode: text::owned("tunnel"),
            playit_secret: String::new(),
        }
    }
}

/// How the image spells a flag.
pub open spec fn bool_text(b: bool) -> Seq<char> {
    if b {
        "true"@
    } else {
        "false"@
    }
}

pub fn bool_str(b: bool) -> (r: String)
    ensures
        r@ == bool_text(b),
{
    if b {
        text::owned("true")
    } else {
        text::owned("false")
    }
}

/// The environment variables handed to the container, in order.
/// COMMUNITY is always "false": the server never lists itself in the public
/// in-game browser.
pub open spec fn env_pairs(s: ServerSettings) -> Seq<(Seq<char>, Seq<char>)> {
    seq![
        ("PUID"@, "1000"@),
        ("PGID"@, "1000"@),
        ("PORT"@, text::dec(s.port as nat)),
        ("PLAYERS"@, text::dec(s.players as nat)),
        ("SERVER_NAME"@, s.server_name@),
        ("SERVER_DESCRIPTION"@, s.server_description@),
        ("SERVER_PASSWORD"@, s.server_password@),
        ("ADMIN_PASSWORD"@, s.admin_password@),
        ("COMMUNITY"@, "false"@),
        ("MULTITHREADING"@, bool_text(s.multithreading)),
        ("RCON_ENABLED"@, "true"@),
        ("RCON_PORT"@, text::dec(s.rcon_port as nat)),
        ("UPDATE_ON_BOOT"@, bool_text(s.auto_update)),
        ("AUTO_UPDATE_ENABLED"@, bool_text(s.auto_update)),
        ("BACKUP_ENABLED"@, bool_text(s.backup_enabled)),
        ("DIFFICULTY"@, s.difficulty@),
        ("DEATH_PENALTY"@, s.death_penalty@),
        ("EXP_RATE"@, s.exp_rate.spec_text()),
        ("PAL_CAPTURE_RATE"@, s.pal_capture_rate.spec_text()),
        ("DAYTIME_SPEEDRATE"@, s.day_time_speed.spec_text()),
        ("NIGHTTIME_SPEEDRATE"@, s.night_time_speed.spec_text()),
        ("ENABLE_PLAYER_TO_PLAYER_DAMAGE"@, bool_text(s.pvp)),
        ("PVP"@, bool_text(s.pvp)),
    ]
}

/// "KEY=VALUE".
pub open spec fn env_assignment(pair: (Seq<char>, Seq<char>)) -> Seq<char> {
    pair.0 + seq!['='] + pair.1
}

/// ["-e", "K1=V1", "-e", "K2=V2", ...].
pub open spec fn env_flags(pairs: Seq<(Seq<char>, Seq<char>)>) -> Seq<Seq<char>>
    decreases pairs.len(),
{
    if pairs.len() == 0 {
        seq![]
    } else {
        env_flags(pairs.drop_last()) + seq!["-e"@, env_assignment(pairs.last())]
    }
}

impl ServerSettings {
    /// `-e KEY=VALUE` pairs handed to `docker run`.
    pub fn env_args(&self) -> (r: Vec<String>)
        ensures
            r.deep_view() == env_flags(env_pairs(*self)),
    {
        let env: Vec<(String, String)> = vec![
            (text::owned("PUID"), text::owned("1000")),
            (text::owned("PGID"), text::owned("1000")),
            (text::owned("PORT"), text::dec_string(self.port as u128)),
            (text::owned("PLAYERS"), text::dec_string(self.players as u128)),
            (text::owned("SERVER_NAME"), self.server_name.clone()),
            (text::owned("SERVER_DESCRIPTION"), self.server_description.clone()),
            (text::owned("SERVER_PASSWORD"), self.server_password.clone()),
            (text::owned("ADMIN_PASSWORD"), self.admin_password.clone()),
            (text::owned("COMMUNITY"), text::owned("false")),
            (text::owned("MULTITHREADING"), bool_str(self.multithreading)),
            (text::owned("RCON_ENABLED"), text::owned("true")),
            (text::owned("RCON_PORT"), text::dec_string(self.rcon_port as u128)),
            (text::owned("UPDATE_ON_BOOT"), bool_str(self.auto_update)),
            (text::owned("AUTO_UPDATE_ENABLED"), bool_str(self.auto_update)),
            (text::owned("BACKUP_ENABLED"), bool_str(self.backup_enabled)),
            (text::owned("DIFFICULTY"), self.difficulty.clone()),
            (text::owned("DEATH_PENALTY"), self.death_penalty.clone()),
            (text::owned("EXP_RATE"), self.exp_rate.text()),
            (text::owned("PAL_CAPTURE_RATE"), self.pal_capture_rate.text()),
            (text::owned("DAYTIME_SPEEDRATE"), self.day_time_speed.text()),
            (text::owned("NIGHTTIME_SPEEDRATE"), self.night_time_speed.text()),
            (text::owned("ENABLE_PLAYER_TO_PLAYER_DAMAGE"), bool_str(self.pvp)),
            (text::owned("PVP"), bool_str(self.pvp)),
        ];
        assert(env.deep_view() =~= env_pairs(*self));
        // Flatten into ["-e", "KEY=VALUE", ...].
        let mut args: Vec<String> = Vec::new();
        let mut i: usize = 0;
        while i < env.len()
            invariant
                i <= env@.len(),
                env.deep_view() == env_pairs(*self),
                args.deep_view() == env_flags(env.deep_view().take(i as int)),
            decreases env@.len() - i,
        {
            let ghost before = args.deep_view();
            let k = &env[i].0;
            let v = &env[i].1;
            args.push(text::owned("-e"));
            let mut kv = text::concat(k.as_str(), "=");
            kv.append(v.as_str());
            let ghost kvv = kv@;
            args.push(kv);
            proof {
                reveal_strlit("=");
                let pairs = env.deep_view();
                assert(pairs.take(i + 1).drop_last() =~= pairs.take(i as int));
                assert(pairs[i as int] == (k@, v@));
                assert(kvv == k@ + seq!['='] + v@);
                assert(env_assignment(pairs[i as int]) == kvv);
                assert(args@.len() == before.len() + 2);
                assert(args.deep_view()[before.len() as int] == "-e"@);
                assert(args.deep_view()[(before.len() + 1) as int] == kvv);
                assert(args.deep_view() =~= before + seq!["-e"@, env_assignment(pairs[i as int])]);
            }
            i = i + 1;
        }
        assert(env.deep_view().take(env@.len() as int) =~= env.deep_view());
        args
    }
}

/// The flags are "-e" / "KEY=VALUE" pairs, one pair per variable, in order.
pub proof fn lemma_env_flags_shape(pairs: Seq<(Seq<char>, Seq<char>)>)
    ensures
        env_flags(pairs).len() == 2 * pairs.len(),
        forall|i: int| 0 <= i < pairs.len() ==> #[trigger] env_flags(pairs)[2 * i] == "-e"@,
        forall|i: int|
            0 <= i < pairs.len() ==> env_flags(pairs)[2 * i + 1] == env_assignment(
                #[trigger] pairs[i],
            ),
    decreases pairs.len(),
{
    if pairs.len() > 0 {
        let init = pairs.drop_last();
        lemma_env_flags_shape(init);
        let f = env_flags(pairs);
        assert(f == env_flags(init) + seq!["-e"@, env_assignment(pairs.last())]);
        assert forall|i: int|
            #![trigger f[2 * i]]
            #![trigger pairs[i]]
            0 <= i < pairs.len() implies f[2 * i] == "-e"@ && f[2 * i + 1] == env_assignment(
                pairs[i],
            ) by {
            if i < init.len() {
                assert(init[i] == pairs[i]);
                assert(f[2 * i] == env_flags(init)[2 * i]);
                assert(f[2 * i + 1] == env_flags(init)[2 * i + 1]);
            } else {
                assert(pairs[i] == pairs.last());
            }
        }
    }
}

/// Law: whatever the settings, the arguments come in "-e" / "KEY=VALUE"
/// pairs, the server stays out of the public server list
/// ("COMMUNITY=false"), RCON is on ("RCON_ENABLED=true"), and the player
/// limit is passed on ("PLAYERS=<players>").
pub proof fn lemma_env_args_private(s: ServerSettings)
    ensures
        env_flags(env_pairs(s)).len() % 2 == 0,
        forall|i: int|
            0 <= i < env_flags(env_pairs(s)).len() && i % 2 == 0 ==> #[trigger] env_flags(
                env_pairs(s),
            )[i] == "-e"@,
        env_flags(env_pairs(s)).contains("COMMUNITY=false"@),
        env_flags(env_pairs(s)).contains("RCON_ENABLED=true"@),
        env_flags(env_pairs(s)).contains("PLAYERS="@ + text::dec(s.players as nat)),
{
    let pairs = env_pairs(s);
    let flags = env_flags(pairs);
    lemma_env_flags_shape(pairs);
    assert forall|i: int| 0 <= i < flags.len() && i % 2 == 0 implies #[trigger] flags[i] == "-e"@ by {
        let j = i / 2;
        assert(pairs[j] == pairs[j]);
        assert(2 * j == i);
    }
    reveal_strlit("COMMUNITY");
    reveal_strlit("false");
    reveal_strlit("COMMUNITY=false");
    reveal_strlit("RCON_ENABLED");
    reveal_strlit("true");
    reveal_strlit("RCON_ENABLED=true");
    reveal_strlit("PLAYERS");
    reveal_strlit("PLAYERS=");
    assert(pairs[8] == ("COMMUNITY"@, "false"@));
    assert(env_assignment(pairs[8]) =~= "COMMUNITY=false"@);
    assert(flags[17int] == "COMMUNITY=false"@);
    assert(pairs[10] == ("RCON_ENABLED"@, "true"@));
    assert(env_assignment(pairs[10]) =~= "RCON_ENABLED=true"@);
    assert(flags[21int] == "RCON_ENABLED=true"@);
    assert(pairs[3] == ("PLAYERS"@, text::dec(s.players as nat)));
    assert(env_assignment(pairs[3]) =~= "PLAYERS="@ + text::dec(s.players as nat));
    assert(flags[7int] == "PLAYERS="@ + text::dec(s.players as nat));
}

/// Law: every variable carries the value of its own setting. The
/// arguments are 23 "-e" flags, each followed by "KEY=VALUE" for, in order:
/// fixed ids 1000, the game port, the player limit, name, description,
/// server and admin passwords, COMMUNITY=false, multithreading,
/// RCON_ENABLED=true, the RCON port, auto-update (twice), backups,
/// difficulty, death penalty, the four rates, and player damage (twice).
/// The relay agent's secret key is not among them.
pub proof fn lemma_env_values(s: ServerSettings)
    ensures
        ({
            let f = env_flags(env_pairs(s));
            &&& f.len() == 46
            &&& forall|i: int| 0 <= i < 23 ==> #[trigger] f[2 * i] == "-e"@
            &&& f[1] == "PUID"@ + seq!['='] + "1000"@
            &&& f[3] == "PGID"@ + seq!['='] + "1000"@
            &&& f[5] == "PORT"@ + seq!['='] + text::dec(s.port as nat)
            &&& f[7] == "PLAYERS"@ + seq!['='] + text::dec(s.players as nat)
            &&& f[9] == "SERVER_NAME"@ + seq!['='] + s.server_name@
            &&& f[11] == "SERVER_DESCRIPTION"@ + seq!['='] + s.server_description@
            &&& f[13] == "SERVER_PASSWORD"@ + seq!['='] + s.server_password@
            &&& f[15] == "ADMIN_PASSWORD"@ + seq!['='] + s.admin_password@
            &&& f[17] == "COMMUNITY"@ + seq!['='] + "false"@
            &&& f[19] == "MULTITHREADING"@ + seq!['='] + bool_text(s.multithreading)
            &&& f[21] == "RCON_ENABLED"@ + seq!['='] + "true"@
            &&& f[23] == "RCON_PORT"@ + seq!['='] + text::dec(s.rcon_port as nat)
            &&& f[25] == "UPDATE_ON_BOOT"@ + seq!['='] + bool_text(s.auto_update)
            &&& f[27] == "AUTO_UPDATE_ENABLED"@ + seq!['='] + bool_text(s.auto_update)
            &&& f[29] == "BACKUP_ENABLED"@ + seq!['='] + bool_text(s.backup_enabled)
            &&& f[31] == "DIFFICULTY"@ + seq!['='] + s.difficulty@
            &&& f[33] == "DEATH_PENALTY"@ + seq!['='] + s.death_penalty@
            &&& f[35] == "EXP_RATE"@ + seq!['='] + s.exp_rate.spec_text()
            &&& f[37] == "PAL_CAPTURE_RATE"@ + seq!['='] + s.pal_capture_rate.spec_text()
            &&& f[39] == "DAYTIME_SPEEDRATE"@ + seq!['='] + s.day_time_speed.spec_text()
            &&& f[41] == "NIGHTTIME_SPEEDRATE"@ + seq!['='] + s.night_time_speed.spec_text()
            &&& f[43] == "ENABLE_PLAYER_TO_PLAYER_DAMAGE"@ + seq!['='] + bool_text(s.pvp)
            &&& f[45] == "PVP"@ + seq!['='] + bool_text(s.pvp)
        }),
{
    let pairs = env_pairs(s);
    let f = env_flags(pairs);
    lemma_env_flags_shape(pairs);
    assert forall|i: int| 0 <= i < 23 implies #[trigger] f[2 * i] == "-e"@ by {
        assert(pairs[i] == pairs[i]);
    }
    assert(f[1] == env_assignment(pairs[0]));
    assert(f[3] == env_assignment(pairs[1]));
    assert(f[5] == env_assignment(pairs[2]));
    assert(f[7] == env_assignment(pairs[3]));
    assert(f[9] == env_assignment(pairs[4]));
    assert(f[11] == env_assignment(pairs[5]));
    assert(f[13] == env_assignment(pairs[6]));
    assert(f[15] == env_assignment(pairs[7]));
    assert(f[17] == env_assignment(pairs[8]));
    assert(f[19] == env_assignment(pairs[9]));
    assert(f[21] == env_assignment(pairs[10]));
    assert(f[23] == env_assignment(pairs[11]));
    assert(f[25] == env_assignment(pairs[12]));
    assert(f[27] == env_assignment(pairs[13]));
    assert(f[29] == env_assignment(pairs[14]));
    assert(f[31] == env_assignment(pairs[15]));
    assert(f[33] == env_assignment(pairs[16]));
    assert(f[35] == env_assignment(pairs[17]));
    assert(f[37] == env_assignment(pairs[18]));
    assert(f[39] == env_assignment(pairs[19]));
    assert(f[41] == env_assignment(pairs[20]));
    assert(f[43] == env_assignment(pairs[21]));
    assert(f[45] == env_assignment(pairs[22]));
}

} // verus!
