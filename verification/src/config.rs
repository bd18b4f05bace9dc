//! Service configuration: command-line arguments, environment overrides
//! and the database connection parameters assembled from them. A value
//! given on the command line wins over one from the environment, which
//! wins over the library default.
use vstd::prelude::*;

verus! {

pub const MYSQL_HOST_DEFAULT: &'static str = "127.0.0.1";

pub const MYSQL_PORT_DEFAULT: u16 = 3306;

pub const MYSQL_DB_DEFAULT: &'static str = "timezonedb";

pub const MYSQL_USER_DEFAULT: &'static str = "timezonedb";

pub const MYSQL_PASS_DEFAULT: &'static str = "password";

pub const GEONAMES_USERNAME_DEFAULT: &'static str = "demo";

pub const GEONAMES_API_BASE: &'static str = "http://api.geonames.org";

/// Default search radius for nearby place queries, in metres.
pub const GEONAMES_MAX_NEARBY_DISTANCE: i64 = 240000;

pub const DEFAULT_WEB_PORT: u16 = 8089;

pub fn empty_string() -> (r: String)
    ensures
        r@ == Seq::<char>::empty(),
{
    String::new()
}

/// Command-line arguments, already parsed into plain values; an empty
/// string or a zero port means "not supplied".
pub struct Args {
    pub host: String,
    pub port: u16,
    pub db: String,
    pub user: String,
    pub pass: String,
    pub geoname: String,
    pub webport: u16,
}

/// The environment values the service reads, each absent when unset.
pub struct EnvSettings {
    pub db_host: Option<String>,
    pub db_port: Option<u16>,
    pub db_name: Option<String>,
    pub db_user: Option<String>,
    pub db_pass: Option<String>,
    pub geonames_username: Option<String>,
    pub max_nearby_radius: Option<i64>,
    pub port: Option<u16>,
}

/// How a string setting is chosen: the argument when non-empty, else the
/// environment value, else the default.
pub open spec fn chosen_string(arg: Seq<char>, env: Option<String>, def: Seq<char>) -> Seq<char> {
    if arg.len() >= 1 {
        arg
    } else {
        match env {
            Some(e) => e@,
            None => def,
        }
    }
}

fn choose_string(arg: &String, env: &Option<String>, def: &str) -> (r: String)
    ensures
        r@ == chosen_string(arg@, *env, def@),
{
    if arg.as_str().unicode_len() >= 1 {
        arg.clone()
    } else {
        match env {
            Some(e) => e.clone(),
            None => def.to_owned(),
        }
    }
}

/// Connection parameters for the transition and toponym store.
pub struct DbParameters {
    pub host: String,
    pub port: u16,
    pub db: String,
    pub user: String,
    pub pass: String,
}

/// Assembles database parameters: each field prefers the argument, then
/// the environment, then the library default.
pub fn parse_db_options(args: &Args, env: &EnvSettings) -> (r: DbParameters)
    ensures
        r.host@ == chosen_string(args.host@, env.db_host, MYSQL_HOST_DEFAULT@),
        r.db@ == chosen_string(args.db@, env.db_name, MYSQL_DB_DEFAULT@),
        r.user@ == chosen_string(args.user@, env.db_user, MYSQL_USER_DEFAULT@),
        r.pass@ == chosen_string(args.pass@, env.db_pass, MYSQL_PASS_DEFAULT@),
        r.port as int == (if args.port >= 1 {
            args.port as int
        } else {
            match env.db_port {
                Some(p) => p as int,
                None => MYSQL_PORT_DEFAULT as int,
            }
        }),
{
    let port: u16 = if args.port >= 1 {
        args.port
    } else {
        match env.db_port {
            Some(p) => p,
            None => MYSQL_PORT_DEFAULT,
        }
    };
    DbParameters {
        host: choose_string(&args.host, &env.db_host, MYSQL_HOST_DEFAULT),
        port,
        db: choose_string(&args.db, &env.db_name, MYSQL_DB_DEFAULT),
        user: choose_string(&args.user, &env.db_user, MYSQL_USER_DEFAULT),
        pass: choose_string(&args.pass, &env.db_pass, MYSQL_PASS_DEFAULT),
    }
}

/// The HTTP port to serve on: the argument, else a positive environment
/// value, else the default.
pub fn match_port(args: &Args, env: &EnvSettings) -> (r: u16)
    ensures
        r as int == (if args.webport >= 1 {
            args.webport as int
        } else {
            match env.port {
                Some(p) => if p >= 1 {
                    p as int
                } else {
                    DEFAULT_WEB_PORT as int
                },
                None => DEFAULT_WEB_PORT as int,
            }
        }),
{
    if args.webport >= 1 {
        args.webport
    } else {
        match env.port {
            Some(p) => {
                if p >= 1 {
                    p
                } else {
                    DEFAULT_WEB_PORT
                }
            },
            None => DEFAULT_WEB_PORT,
        }
    }
}

/// The Geonames account name to query with: the argument when it has more
/// than two characters, else the environment value, else the default.
pub fn match_geonames_username(args: &Args, env: &EnvSettings) -> (r: String)
    ensures
        r@ == (if args.geoname@.len() > 2 {
            args.geoname@
        } else {
            match env.geonames_username {
                Some(u) => u@,
                None => GEONAMES_USERNAME_DEFAULT@,
            }
        }),
{
    if args.geoname.as_str().unicode_len() > 2 {
        args.geoname.clone()
    } else {
        match &env.geonames_username {
            Some(u) => u.clone(),
            None => GEONAMES_USERNAME_DEFAULT.to_owned(),
        }
    }
}

/// The nearby-search radius in metres: a non-negative environment value,
/// else the default.
pub fn match_max_nearby_radius(env: &EnvSettings) -> (r: i64)
    ensures
        r == (match env.max_nearby_radius {
            Some(m) => if m >= 0 {
                m as int
            } else {
                GEONAMES_MAX_NEARBY_DISTANCE as int
            },
            None => GEONAMES_MAX_NEARBY_DISTANCE as int,
        }),
{
    match env.max_nearby_radius {
        Some(m) => {
            if m >= 0 {
                m
            } else {
                GEONAMES_MAX_NEARBY_DISTANCE
            }
        },
        None => GEONAMES_MAX_NEARBY_DISTANCE,
    }
}

} // verus!
