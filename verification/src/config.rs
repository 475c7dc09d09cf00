//! The settings the front runs with, the defaults it fills in, and the command
//! line it starts the game server with.

use vstd::prelude::*;
use crate::text::{chars_of, decimal, decimal_string};

verus! {

broadcast use vstd::string::group_string_axioms;

/// The command-line settings.
pub struct Args {
    /// The port that people will connect to.
    pub port: u16,
    /// The path to the game server's executable.
    pub ko_path: String,
    /// The port that the real game server runs on (default: `port - 1`).
    pub ko_port: Option<u16>,
    /// The lowest UDP port that the game server uses.
    pub ko_min_port: u16,
    /// The highest UDP port that the game server uses.
    pub ko_max_port: u16,
    /// The most players the game server admits (default: no limit).
    pub ko_players: Option<u32>,
    /// The Postgres database that the game server uses.
    pub ko_db: String,
    /// The Redis server that the game server uses, `host` or `host:port`.
    pub ko_redis: String,
    /// The Postgres database that holds the passwords (default: `ko_db`).
    pub auth_db: Option<String>,
    /// Whether a login with an unknown username creates the account.
    pub create: bool,
}

/// `Args` with its text as characters.
pub struct ArgsModel {
    pub port: u16,
    pub ko_path: Seq<char>,
    pub ko_port: Option<u16>,
    pub ko_min_port: u16,
    pub ko_max_port: u16,
    pub ko_players: Option<u32>,
    pub ko_db: Seq<char>,
    pub ko_redis: Seq<char>,
    pub auth_db: Option<Seq<char>>,
    pub create: bool,
}

impl View for Args {
    type V = ArgsModel;

    open spec fn view(&self) -> ArgsModel {
        ArgsModel {
            port: self.port,
            ko_path: self.ko_path@,
            ko_port: self.ko_port,
            ko_min_port: self.ko_min_port,
            ko_max_port: self.ko_max_port,
            ko_players: self.ko_players,
            ko_db: self.ko_db@,
            ko_redis: self.ko_redis@,
            auth_db: match self.auth_db {
                Some(d) => Some(d@),
                None => None,
            },
            create: self.create,
        }
    }
}

/// The port that Redis listens on unless one is given.
pub open spec fn default_redis_port_suffix() -> Seq<char> {
    ":6379"@
}

/// The settings once the defaults are filled in: the game server's port is
/// `port - 1` unless given, the password database is the game's database
/// unless given, and a Redis address without `:` gets port 6379.
pub open spec fn with_defaults_spec(a: ArgsModel) -> ArgsModel {
    ArgsModel {
        ko_port: match a.ko_port {
            Some(p) => Some(p),
            None => Some((a.port - 1) as u16),
        },
        auth_db: match a.auth_db {
            Some(d) => Some(d),
            None => Some(a.ko_db),
        },
        ko_redis: if a.ko_redis.contains(':') {
            a.ko_redis
        } else {
            a.ko_redis + default_redis_port_suffix()
        },
        ..a
    }
}

/// Settings in which every default is filled in.
pub open spec fn is_complete(a: ArgsModel) -> bool {
    a.ko_port is Some && a.auth_db is Some && a.ko_redis.contains(':')
}

/// True when `c` occurs in `s`.
pub fn contains_char(s: &str, c: char) -> (r: bool)
    ensures
        r == s@.contains(c),
{
    let cs = chars_of(s);
    let mut i: usize = 0;
    while i < cs.len()
        invariant
            i <= cs@.len(),
            cs@ == s@,
            forall|k: int| 0 <= k < i ==> cs@[k] != c,
        decreases cs.len() - i,
    {
        if cs[i] == c {
            return true;
        }
        i = i + 1;
    }
    false
}

impl Args {
    /// Fills in the defaults. Without a game-server port, `port` must be above
    /// zero: `port - 1` would overflow.
    pub fn with_defaults(self) -> (r: Args)
        requires
            self.ko_port is Some || self.port > 0,
        ensures
            r@ == with_defaults_spec(self@),
    {
        let mut args = self;
        if args.ko_port.is_none() {
            args.ko_port = Some(args.port - 1);
        }
        if args.auth_db.is_none() {
            args.auth_db = Some(args.ko_db.clone());
        }
        if !contains_char(args.ko_redis.as_str(), ':') {
            let mut redis = args.ko_redis.clone();
            redis.append(":6379");
            args.ko_redis = redis;
        }
        args
    }
}


/// Filling in the defaults leaves nothing unfilled.
pub proof fn defaults_complete(a: ArgsModel)
    ensures
        is_complete(with_defaults_spec(a)),
{
    if !a.ko_redis.contains(':') {
        reveal_strlit(":6379");
        let r = a.ko_redis + default_redis_port_suffix();
        assert(r[a.ko_redis.len() as int] == ':');
    }
}

/// Filling in the defaults twice gives what filling them in once gives.
pub proof fn defaults_idempotent(a: ArgsModel)
    ensures
        with_defaults_spec(with_defaults_spec(a)) == with_defaults_spec(a),
{
    defaults_complete(a);
}

/// The characters of `s` before the first `c`, or all of `s` without one:
/// the first piece of `s.split(c)`.
pub open spec fn take_until(s: Seq<char>, c: char) -> Seq<char>
    decreases s.len(),
{
    if s.len() == 0 {
        s
    } else if s[0] == c {
        Seq::empty()
    } else {
        seq![s[0]] + take_until(s.drop_first(), c)
    }
}

/// The characters of `s` after the first `c`, or nothing without one.
pub open spec fn after_first(s: Seq<char>, c: char) -> Seq<char>
    decreases s.len(),
{
    if s.len() == 0 {
        s
    } else if s[0] == c {
        s.drop_first()
    } else {
        after_first(s.drop_first(), c)
    }
}

/// The Redis host of an address `host:port`: the first piece of its split on `:`.
pub open spec fn redis_host(redis: Seq<char>) -> Seq<char> {
    take_until(redis, ':')
}

/// The Redis port of an address `host:port`: the second piece of its split on `:`.
pub open spec fn redis_port(redis: Seq<char>) -> Seq<char> {
    take_until(after_first(redis, ':'), ':')
}

proof fn lemma_take_until(s: Seq<char>, c: char, i: int)
    requires
        0 <= i <= s.len(),
        forall|k: int| 0 <= k < i ==> s[k] != c,
        i == s.len() || s[i] == c,
    ensures
        take_until(s, c) == s.subrange(0, i),
        i < s.len() ==> after_first(s, c) == s.subrange(i + 1, s.len() as int),
    decreases s.len(),
{
    if i > 0 {
        lemma_take_until(s.drop_first(), c, i - 1);
        assert(s.subrange(0, i) =~= seq![s[0]] + s.drop_first().subrange(0, i - 1));
        if i < s.len() {
            assert(s.drop_first().subrange(i, s.len() - 1) =~= s.subrange(i + 1, s.len() as int));
        }
    } else {
        assert(s.subrange(0, 0) =~= Seq::<char>::empty());
        if s.len() > 0 {
            assert(s.drop_first() =~= s.subrange(1, s.len() as int));
        }
    }
}

fn index_of_char(cs: &Vec<char>, c: char, from: usize) -> (r: usize)
    requires
        from <= cs@.len(),
    ensures
        from <= r <= cs@.len(),
        forall|k: int| from <= k < r ==> cs@[k] != c,
        r == cs@.len() || cs@[r as int] == c,
{
    let mut i = from;
    while i < cs.len() && cs[i] != c
        invariant
            from <= i <= cs@.len(),
            forall|k: int| from <= k < i ==> cs@[k] != c,
        decreases cs.len() - i,
    {
        i = i + 1;
    }
    i
}

/// Splits a Redis address `host:port` into its host and its port.
pub fn split_redis(redis: &str) -> (r: (&str, &str))
    requires
        redis@.contains(':'),
    ensures
        r.0@ == redis_host(redis@),
        r.1@ == redis_port(redis@),
{
    let cs = chars_of(redis);
    let i = index_of_char(&cs, ':', 0);
    proof {
        lemma_take_until(redis@, ':', i as int);
    }
    let host = redis.substring_char(0, i);
    let n = cs.len();
    assert(i < n);
    let j = index_of_char(&cs, ':', i + 1);
    proof {
        let rest = redis@.subrange(i + 1, redis@.len() as int);
        lemma_take_until(rest, ':', j - i - 1);
        assert(rest.subrange(0, j - i - 1) =~= redis@.subrange(i + 1, j as int));
    }
    let port = redis.substring_char(i + 1, j);
    (host, port)
}


/// The characters of each string of `v`.
pub open spec fn texts(v: Seq<String>) -> Seq<Seq<char>> {
    v.map_values(|s: String| s@)
}

/// The options the game server is started with.
pub open spec fn server_options(a: ArgsModel) -> Seq<Seq<char>> {
    let base = seq![
        "-backend_port="@ + decimal(a.ko_port->0 as nat),
        "-server_min_port="@ + decimal(a.ko_min_port as nat),
        "-server_max_port="@ + decimal(a.ko_max_port as nat),
        "-backend_db="@ + a.ko_db,
        "-backend_redis_db_host="@ + redis_host(a.ko_redis),
        "-backend_redis_db_port="@ + redis_port(a.ko_redis),
    ];
    match a.ko_players {
        Some(x) => base.push(
            "-backend_tunable_user_connections_max_per_backend="@ + decimal(x as nat),
        ),
        None => base,
    }
}

/// The system the game server is started on.
#[derive(PartialEq, Eq, Structural, Clone, Copy, Debug)]
pub enum Platform {
    Windows,
    Unix,
    Other,
}

/// The program to run and its arguments.
pub struct LaunchPlan {
    pub program: String,
    pub args: Vec<String>,
}

/// How the game server is started: directly on Windows, through `wine` on
/// Unix with the executable's path as first argument, and not at all elsewhere.
pub open spec fn launch_spec(a: ArgsModel, platform: Platform) -> Option<(Seq<char>, Seq<Seq<char>>)> {
    match platform {
        Platform::Windows => Some((a.ko_path, server_options(a))),
        Platform::Unix => Some(("wine"@, seq![a.ko_path] + server_options(a))),
        Platform::Other => None,
    }
}

fn joined(prefix: &str, value: &str) -> (r: String)
    ensures
        r@ == prefix@ + value@,
{
    let mut r = String::from_str(prefix);
    r.append(value);
    r
}

/// The options the game server is started with.
pub fn server_arguments(args: &Args) -> (r: Vec<String>)
    requires
        args.ko_port is Some,
        args.ko_redis@.contains(':'),
    ensures
        texts(r@) == server_options(args@),
{
    let ko_port = match args.ko_port {
        Some(p) => p,
        None => 0,
    };
    let (host, port) = split_redis(args.ko_redis.as_str());
    let mut v: Vec<String> = Vec::new();
    let s = decimal_string(ko_port as u64);
    v.push(joined("-backend_port=", s.as_str()));
    let s = decimal_string(args.ko_min_port as u64);
    v.push(joined("-server_min_port=", s.as_str()));
    let s = decimal_string(args.ko_max_port as u64);
    v.push(joined("-server_max_port=", s.as_str()));
    v.push(joined("-backend_db=", args.ko_db.as_str()));
    v.push(joined("-backend_redis_db_host=", host));
    v.push(joined("-backend_redis_db_port=", port));
    match args.ko_players {
        Some(x) => {
            let s = decimal_string(x as u64);
            v.push(joined("-backend_tunable_user_connections_max_per_backend=", s.as_str()));
        },
        None => {},
    }
    assert(texts(v@) =~= server_options(args@));
    v
}

/// How the game server is started on `platform`.
pub fn launch_plan(args: &Args, platform: Platform) -> (r: Option<LaunchPlan>)
    requires
        args.ko_port is Some,
        args.ko_redis@.contains(':'),
    ensures
        match r {
            Some(p) => launch_spec(args@, platform) == Some((p.program@, texts(p.args@))),
            None => launch_spec(args@, platform) is None,
        },
{
    match platform {
        Platform::Windows => Some(
            LaunchPlan { program: args.ko_path.clone(), args: server_arguments(args) },
        ),
        Platform::Unix => {
            let options = server_arguments(args);
            let mut all: Vec<String> = Vec::new();
            all.push(args.ko_path.clone());
            let mut i: usize = 0;
            while i < options.len()
                invariant
                    i <= options@.len(),
                    texts(all@) == seq![args.ko_path@] + texts(options@).subrange(0, i as int),
                decreases options.len() - i,
            {
                let o = options[i].clone();
                let ghost before = all@;
                all.push(o);
                assert(all@ =~= before.push(o));
                assert(texts(all@) =~= texts(before).push(o@));
                assert(o@ == texts(options@)[i as int]);
                assert(texts(all@) =~= seq![args.ko_path@] + texts(options@).subrange(0, i + 1));
                i = i + 1;
            }
            assert(texts(options@).subrange(0, options@.len() as int) =~= texts(options@));
            Some(LaunchPlan { program: String::from_str("wine"), args: all })
        },
        Platform::Other => None,
    }
}


/// What `std::path::Path::parent` gives for the path `path`, on the system the
/// library is built for: the path without its final component and the
/// separators before it, nothing when the path is only a root or a prefix.
/// Stating it takes that system's path grammar (roots, Windows drive, UNC and
/// verbatim prefixes, `.` components).
pub uninterp spec fn path_parent(path: Seq<char>) -> Option<Seq<char>>;

/// `std::path::Path::parent`, read back as text. A parent of a path made from
/// text is a slice of that text, so it is text too. The result is named by
/// `path_parent`.
#[verifier::external_body]
fn parent_of(path: &str) -> (r: Option<String>)
    ensures
        match r {
            Some(d) => path_parent(path@) == Some(d@),
            None => path_parent(path@) is None,
        },
{
    std::path::Path::new(path).parent().and_then(std::path::Path::to_str).map(String::from)
}

/// The directory that the game server at `path` runs in: `path` as
/// `PathBuf::pop` leaves it, that is its parent, or `path` itself when it has
/// none; the current directory `.` when that parent is empty (a bare file name).
pub open spec fn directory_of(path: Seq<char>) -> Seq<char> {
    match path_parent(path) {
        Some(d) => if d.len() == 0 {
            "."@
        } else {
            d
        },
        None => path,
    }
}

/// The directory that the game server at `path` runs in.
pub fn working_directory(path: &str) -> (r: String)
    ensures
        r@ == directory_of(path@),
{
    match parent_of(path) {
        Some(d) => {
            if d.as_str().is_empty() {
                String::from_str(".")
            } else {
                d
            }
        },
        None => String::from_str(path),
    }
}


/// Filling in the defaults changes only the game server's port (when it is
/// not given: `port - 1`), the password database (when it is not given: the
/// game's database) and a Redis address without `:` (which gets `:6379`);
/// every other setting comes back as it was given.
pub proof fn defaults_change_only_what_is_missing(a: ArgsModel)
    ensures
        ({
            let d = with_defaults_spec(a);
            &&& d.port == a.port
            &&& d.ko_path == a.ko_path
            &&& d.ko_min_port == a.ko_min_port
            &&& d.ko_max_port == a.ko_max_port
            &&& d.ko_players == a.ko_players
            &&& d.ko_db == a.ko_db
            &&& d.create == a.create
            &&& (a.ko_port is Some ==> d.ko_port == a.ko_port)
            &&& (a.ko_port is None ==> d.ko_port == Some((a.port - 1) as u16))
            &&& (a.auth_db is Some ==> d.auth_db == a.auth_db)
            &&& (a.auth_db is None ==> d.auth_db == Some(a.ko_db))
            &&& (a.ko_redis.contains(':') ==> d.ko_redis == a.ko_redis)
            &&& (!a.ko_redis.contains(':') ==> d.ko_redis == a.ko_redis + ":6379"@)
        }),
{
}

/// A Redis address splits at its first `:` into the host and the rest; the
/// host holds no `:`, and the port is the start of the rest up to any further
/// `:`.
pub proof fn redis_address_splits_at_its_first_colon(redis: Seq<char>)
    requires
        redis.contains(':'),
    ensures
        redis == redis_host(redis) + seq![':'] + after_first(redis, ':'),
        !redis_host(redis).contains(':'),
        redis_port(redis).len() <= after_first(redis, ':').len(),
        redis_port(redis) == after_first(redis, ':').subrange(0, redis_port(redis).len() as int),
        !redis_port(redis).contains(':'),
        redis_port(redis).len() < after_first(redis, ':').len() ==> after_first(redis, ':')[redis_port(
            redis,
        ).len() as int] == ':',
{
    let i = choose|i: int| 0 <= i < redis.len() && redis[i] == ':' && forall|k: int|
        0 <= k < i ==> redis[k] != ':';
    assert(exists|i: int| 0 <= i < redis.len() && redis[i] == ':' && forall|k: int|
        0 <= k < i ==> redis[k] != ':') by {
        lemma_first_index(redis, ':');
    }
    lemma_take_until(redis, ':', i);
    let rest = redis.subrange(i + 1, redis.len() as int);
    assert(redis =~= redis.subrange(0, i) + seq![':'] + rest);
    if rest.contains(':') {
        lemma_first_index(rest, ':');
        let j = choose|j: int| 0 <= j < rest.len() && rest[j] == ':' && forall|k: int|
            0 <= k < j ==> rest[k] != ':';
        lemma_take_until(rest, ':', j);
    } else {
        lemma_take_until(rest, ':', rest.len() as int);
        assert(rest.subrange(0, rest.len() as int) =~= rest);
    }
}

proof fn lemma_first_index(s: Seq<char>, c: char)
    requires
        s.contains(c),
    ensures
        exists|i: int| 0 <= i < s.len() && s[i] == c && forall|k: int| 0 <= k < i ==> s[k] != c,
    decreases s.len(),
{
    if s[0] == c {
        assert(0 < s.len() && s[0] == c && forall|k: int| 0 <= k < 0 ==> s[k] != c);
    } else {
        let j = choose|j: int| 0 <= j < s.len() && s[j] == c;
        assert(s.drop_first()[j - 1] == c);
        lemma_first_index(s.drop_first(), c);
        let i = choose|i: int| 0 <= i < s.drop_first().len() && s.drop_first()[i] == c && forall|k: int|
            0 <= k < i ==> s.drop_first()[k] != c;
        assert(forall|k: int| 0 <= k < i + 1 ==> s[k] != c) by {
            assert forall|k: int| 0 <= k < i + 1 implies s[k] != c by {
                if k > 0 {
                    assert(s[k] == s.drop_first()[k - 1]);
                }
            }
        }
        assert(s[i + 1] == c);
    }
}

/// The game server's options, one by one: its port, the UDP port range, the
/// game's database (never the password database), the Redis host and port,
/// and the player limit when one is given; the password database and the
/// account-creation switch do not enter them.
pub proof fn server_options_are_the_settings(a: ArgsModel, auth_db: Option<Seq<char>>, create: bool)
    ensures
        ({
            let o = server_options(a);
            &&& o.len() == if a.ko_players is Some { 7int } else { 6int }
            &&& o[0] == "-backend_port="@ + decimal(a.ko_port->0 as nat)
            &&& o[1] == "-server_min_port="@ + decimal(a.ko_min_port as nat)
            &&& o[2] == "-server_max_port="@ + decimal(a.ko_max_port as nat)
            &&& o[3] == "-backend_db="@ + a.ko_db
            &&& o[4] == "-backend_redis_db_host="@ + redis_host(a.ko_redis)
            &&& o[5] == "-backend_redis_db_port="@ + redis_port(a.ko_redis)
            &&& (a.ko_players matches Some(x) ==> o[6]
                == "-backend_tunable_user_connections_max_per_backend="@ + decimal(x as nat))
            &&& server_options(ArgsModel { auth_db, create, ..a }) == o
        }),
{
}

/// The game server runs directly on Windows and through `wine` on Unix, with
/// the same options; only the executable's path moves into the arguments.
pub proof fn launch_differs_only_in_the_runner(a: ArgsModel)
    ensures
        launch_spec(a, Platform::Windows) == Some((a.ko_path, server_options(a))),
        launch_spec(a, Platform::Unix) matches Some((program, args)) && program == "wine"@
            && args.len() == server_options(a).len() + 1 && args[0] == a.ko_path && args.drop_first()
            == server_options(a),
        launch_spec(a, Platform::Other) is None,
{
    let args = seq![a.ko_path] + server_options(a);
    assert(args.drop_first() =~= server_options(a));
}

} // verus!
