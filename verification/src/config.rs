//! The configuration of the service, read off its environment variables.

use vstd::prelude::*;

use crate::text::{decimal, parse_number, same_text, split, trim};
#[allow(unused_imports)]
use crate::text::{decimal_text, parsed_number, split_on, text_opt, texts, trimmed};

verus! {

/// Ports below this one are reserved.
pub const FIRST_FREE_PORT: u16 = 1024;

pub const DEFAULT_MAX_PDF_SIZE_MB: usize = 10;

pub const DEFAULT_REQUEST_TIMEOUT_SECONDS: u64 = 30;

pub const DEFAULT_BROWSER_POOL_MIN: usize = 2;

pub const DEFAULT_BROWSER_POOL_MAX: usize = 5;

#[derive(Debug)]
pub enum ConfigError {
    InvalidPort(String),
}

#[derive(Clone, Debug)]
pub struct Config {
    pub port: u16,
    pub chrome_path: Option<String>,
    pub rust_log: String,
    pub allowed_origins: Vec<String>,
    pub max_pdf_size_mb: usize,
    pub request_timeout_seconds: u64,
    pub browser_pool_min: usize,
    pub browser_pool_max: usize,
}

/// The environment variables that configure the service, as far as they are set.
#[derive(Debug)]
pub struct EnvVars {
    pub port: Option<String>,
    pub chrome_path: Option<String>,
    pub rust_log: Option<String>,
    pub allowed_origins: Option<String>,
    pub max_pdf_size_mb: Option<String>,
    pub request_timeout_seconds: Option<String>,
    pub browser_pool_min: Option<String>,
    pub browser_pool_max: Option<String>,
}

/// A configuration as a value.
#[verifier::ext_equal]
pub struct ConfigView {
    pub port: u16,
    pub chrome_path: Option<Seq<char>>,
    pub rust_log: Seq<char>,
    pub allowed_origins: Seq<Seq<char>>,
    pub max_pdf_size_mb: usize,
    pub request_timeout_seconds: u64,
    pub browser_pool_min: usize,
    pub browser_pool_max: usize,
}

impl View for Config {
    type V = ConfigView;

    open spec fn view(&self) -> ConfigView {
        ConfigView {
            port: self.port,
            chrome_path: text_opt(self.chrome_path),
            rust_log: self.rust_log@,
            allowed_origins: texts(self.allowed_origins@),
            max_pdf_size_mb: self.max_pdf_size_mb,
            request_timeout_seconds: self.request_timeout_seconds,
            browser_pool_min: self.browser_pool_min,
            browser_pool_max: self.browser_pool_max,
        }
    }
}

impl ConfigView {
    /// The address that the service listens on.
    pub open spec fn listen_text(self) -> Seq<char> {
        "0.0.0.0:"@ + decimal_text(self.port as nat)
    }
}

impl ConfigError {
    pub open spec fn message_text(self) -> Seq<char> {
        match self {
            ConfigError::InvalidPort(port) => "Invalid port number: "@ + port@,
        }
    }

    pub fn message(&self) -> (r: String)
        ensures
            r@ == self.message_text(),
    {
        match self {
            ConfigError::InvalidPort(port) => {
                let mut r = "Invalid port number: ".to_owned();
                r.append(port.as_str());
                r
            },
        }
    }
}

/// The value of a variable, or the default where it is not set.
pub open spec fn value_or(value: Option<String>, default: Seq<char>) -> Seq<char> {
    match value {
        Some(s) => s@,
        None => default,
    }
}

/// The number that a variable gives, or the default where it is not set or gives none.
pub open spec fn number_or(value: Option<String>, max: nat, default: nat) -> nat {
    match value {
        Some(s) => match parsed_number(s@, max) {
            Some(n) => n,
            None => default,
        },
        None => default,
    }
}

pub open spec fn larger(a: nat, b: nat) -> nat {
    if a >= b {
        a
    } else {
        b
    }
}

impl EnvVars {
    pub open spec fn port_text(self) -> Seq<char> {
        value_or(self.port, "5000"@)
    }

    /// The port, or what is wrong with it.
    pub open spec fn port_choice(self) -> Result<nat, Seq<char>> {
        match parsed_number(self.port_text(), u16::MAX as nat) {
            None => Err(self.port_text()),
            Some(port) => if 0 < port < FIRST_FREE_PORT {
                Err(
                    "Port "@ + decimal_text(port)
                        + " is in reserved range. Use port >= 1024"@,
                )
            } else {
                Ok(port)
            },
        }
    }

    /// The origins, separated by commas, each without white space around it.
    pub open spec fn origins(self) -> Seq<Seq<char>> {
        split_on(value_or(self.allowed_origins, "*"@), ',').map_values(
            |piece: Seq<char>| trimmed(piece),
        )
    }

    /// The pool keeps at least one browser.
    pub open spec fn pool_min(self) -> nat {
        larger(
            number_or(self.browser_pool_min, usize::MAX as nat, DEFAULT_BROWSER_POOL_MIN as nat),
            1,
        )
    }

    /// The pool may hold at least as many browsers as it keeps.
    pub open spec fn pool_max(self) -> nat {
        larger(
            number_or(self.browser_pool_max, usize::MAX as nat, DEFAULT_BROWSER_POOL_MAX as nat),
            self.pool_min(),
        )
    }

    /// The configuration that the variables give.
    pub open spec fn config(self) -> Result<ConfigView, Seq<char>> {
        match self.port_choice() {
            Err(port) => Err(port),
            Ok(port) => Ok(
                ConfigView {
                    port: port as u16,
                    chrome_path: text_opt(self.chrome_path),
                    rust_log: value_or(self.rust_log, "info"@),
                    allowed_origins: self.origins(),
                    max_pdf_size_mb: number_or(
                        self.max_pdf_size_mb,
                        usize::MAX as nat,
                        DEFAULT_MAX_PDF_SIZE_MB as nat,
                    ) as usize,
                    request_timeout_seconds: number_or(
                        self.request_timeout_seconds,
                        u64::MAX as nat,
                        DEFAULT_REQUEST_TIMEOUT_SECONDS as nat,
                    ) as u64,
                    browser_pool_min: self.pool_min() as usize,
                    browser_pool_max: self.pool_max() as usize,
                },
            ),
        }
    }
}

fn text_or(value: &Option<String>, default: &str) -> (r: String)
    ensures
        r@ == value_or(*value, default@),
{
    match value {
        Some(s) => s.clone(),
        None => default.to_owned(),
    }
}

fn parse_or(value: &Option<String>, max: u64, default: u64) -> (r: u64)
    requires
        default <= max,
    ensures
        r == number_or(*value, max as nat, default as nat),
        r <= max,
{
    match value {
        Some(s) => match parse_number(s.as_str(), max) {
            Some(n) => n,
            None => default,
        },
        None => default,
    }
}

fn origin_list(text: &str) -> (r: Vec<String>)
    ensures
        texts(r@) == split_on(text@, ',').map_values(|piece: Seq<char>| trimmed(piece)),
{
    let pieces = split(text, ',');
    let mut r: Vec<String> = Vec::new();
    let mut i: usize = 0;
    while i < pieces.len()
        invariant
            i <= pieces@.len(),
            r@.len() == i,
            texts(pieces@) == split_on(text@, ','),
            forall|j: int| 0 <= j < i ==> (#[trigger] r@[j])@ == trimmed(texts(pieces@)[j]),
        decreases pieces@.len() - i,
    {
        r.push(trim(pieces[i].as_str()));
        i += 1;
    }
    assert(texts(r@) =~= split_on(text@, ',').map_values(|piece: Seq<char>| trimmed(piece)));
    r
}

impl Config {
    /// The configuration that the environment variables give. A port that is no number or is
    /// reserved is an error; any other variable that is not set or does not parse has a default.
    pub fn from_env(env: &EnvVars) -> (r: Result<Self, ConfigError>)
        ensures
            match r {
                Ok(config) => env.config() == Ok::<ConfigView, Seq<char>>(config@),
                Err(ConfigError::InvalidPort(port)) => env.config() == Err::<
                    ConfigView,
                    Seq<char>,
                >(port@),
            },
    {
        let port_str = text_or(&env.port, "5000");
        let port: u64 = match parse_number(port_str.as_str(), u16::MAX as u64) {
            Some(port) => port,
            None => {
                return Err(ConfigError::InvalidPort(port_str));
            },
        };
        if port < FIRST_FREE_PORT as u64 && port != 0 {
            let mut message = "Port ".to_owned();
            message.append(decimal(port as u128).as_str());
            message.append(" is in reserved range. Use port >= 1024");
            return Err(ConfigError::InvalidPort(message));
        }
        let chrome_path = env.chrome_path.clone();
        let rust_log = text_or(&env.rust_log, "info");
        let allowed_origins = origin_list(text_or(&env.allowed_origins, "*").as_str());
        let max_pdf_size_mb: usize = parse_or(
            &env.max_pdf_size_mb,
            usize::MAX as u64,
            DEFAULT_MAX_PDF_SIZE_MB as u64,
        ) as usize;
        let request_timeout_seconds: u64 = parse_or(
            &env.request_timeout_seconds,
            u64::MAX,
            DEFAULT_REQUEST_TIMEOUT_SECONDS,
        );
        let min: usize = parse_or(
            &env.browser_pool_min,
            usize::MAX as u64,
            DEFAULT_BROWSER_POOL_MIN as u64,
        ) as usize;
        let browser_pool_min: usize = if min >= 1 {
            min
        } else {
            1
        };
        let max: usize = parse_or(
            &env.browser_pool_max,
            usize::MAX as u64,
            DEFAULT_BROWSER_POOL_MAX as u64,
        ) as usize;
        let browser_pool_max: usize = if max >= browser_pool_min {
            max
        } else {
            browser_pool_min
        };
        let config = Config {
            port: port as u16,
            chrome_path,
            rust_log,
            allowed_origins,
            max_pdf_size_mb,
            request_timeout_seconds,
            browser_pool_min,
            browser_pool_max,
        };
        assert(text_opt(config.chrome_path) == text_opt(env.chrome_path));
        Ok(config)
    }

    /// Requests from any origin are allowed: one of the allowed origins is the wildcard.
    pub fn allows_any_origin(&self) -> (r: bool)
        ensures
            r == self@.allowed_origins.contains("*"@),
            r <==> exists|i: int|
                0 <= i < self.allowed_origins@.len() && (#[trigger] self.allowed_origins@[i])@
                    == "*"@,
    {
        let mut i: usize = 0;
        while i < self.allowed_origins.len()
            invariant
                i <= self.allowed_origins@.len(),
                forall|j: int| 0 <= j < i ==> #[trigger] self@.allowed_origins[j] != "*"@,
            decreases self.allowed_origins@.len() - i,
        {
            if same_text(self.allowed_origins[i].as_str(), "*") {
                assert(self@.allowed_origins[i as int] == "*"@);
                return true;
            }
            i += 1;
        }
        proof {
            assert forall|j: int| 0 <= j < self.allowed_origins@.len() implies (
            #[trigger] self.allowed_origins@[j])@ != "*"@ by {
                assert(self@.allowed_origins[j] != "*"@);
            }
        }
        false
    }

    /// The address that the service listens on: the port on every interface.
    pub fn listen_address(&self) -> (r: String)
        ensures
            r@ == "0.0.0.0:"@ + decimal_text(self.port as nat),
            r@ == self@.listen_text(),
    {
        let mut r = "0.0.0.0:".to_owned();
        r.append(decimal(self.port as u128).as_str());
        r
    }
}

// ---------------------------------------------------------------------------
// Laws
// ---------------------------------------------------------------------------

/// Whatever the environment, a configuration that is accepted has a port that is free to use or
/// left to the system, keeps at least one browser, may hold at least as many as it keeps, and
/// names at least one origin.
pub proof fn law_config_limits(env: EnvVars)
    ensures
        match env.config() {
            Ok(c) => {
                &&& c.port == 0 || c.port >= FIRST_FREE_PORT
                &&& 1 <= c.browser_pool_min <= c.browser_pool_max
                &&& c.allowed_origins.len() >= 1
            },
            Err(_) => true,
        },
{
    crate::text::law_split(value_or(env.allowed_origins, "*"@), ',');
}

/// What the variables mean, one by one. The port is the number that its text writes, 5000 where
/// there is none; it is refused, with its text, where it writes none up to 65535, and with an
/// explanation from 1 to 1023. Each other variable decides its own setting and no other, and one
/// that is missing or writes no number leaves the default. The pool keeps one browser at least, and
/// may hold no fewer than it keeps.
pub proof fn law_variables(env: EnvVars)
    ensures
        ({
            let port = match env.port {
                Some(s) => s@,
                None => "5000"@,
            };
            let number = parsed_number(port, 65535);
            &&& env.config() is Ok <==> (number matches Some(n) && (n == 0 || n >= 1024))
            &&& number is None ==> env.config() == Err::<ConfigView, Seq<char>>(port)
            &&& number matches Some(n) ==> 1 <= n <= 1023 ==> env.config() == Err::<
                ConfigView,
                Seq<char>,
            >("Port "@ + (decimal_text(n) + " is in reserved range. Use port >= 1024"@))
            &&& env.config() matches Ok(c) ==> number == Some(c.port as nat)
        }),
        env.config() matches Ok(c) ==> {
            &&& c.chrome_path is Some <==> env.chrome_path is Some
            &&& env.chrome_path matches Some(s) ==> c.chrome_path == Some(s@)
            &&& env.rust_log matches Some(s) ==> c.rust_log == s@
            &&& env.rust_log is None ==> c.rust_log == "info"@
            &&& decides(env.max_pdf_size_mb, usize::MAX as nat, 10, c.max_pdf_size_mb as nat)
            &&& decides(
                env.request_timeout_seconds,
                u64::MAX as nat,
                30,
                c.request_timeout_seconds as nat,
            )
            &&& c.browser_pool_min >= 1
            &&& c.browser_pool_min > 1 ==> decides(
                env.browser_pool_min,
                usize::MAX as nat,
                2,
                c.browser_pool_min as nat,
            )
            &&& c.browser_pool_min == 1 ==> decides(env.browser_pool_min, usize::MAX as nat, 2, 0)
                || decides(env.browser_pool_min, usize::MAX as nat, 2, 1)
            &&& c.browser_pool_max >= c.browser_pool_min
            &&& c.browser_pool_max > c.browser_pool_min ==> decides(
                env.browser_pool_max,
                usize::MAX as nat,
                5,
                c.browser_pool_max as nat,
            )
            &&& c.browser_pool_max == c.browser_pool_min ==> exists|n: nat|
                n <= c.browser_pool_min && #[trigger] decides(
                    env.browser_pool_max,
                    usize::MAX as nat,
                    5,
                    n,
                )
        },
{
    if let Ok(c) = env.config() {
        let max = number_or(env.browser_pool_max, usize::MAX as nat, 5);
        assert(decides(env.browser_pool_max, usize::MAX as nat, 5, max));
    }
    let port = match env.port {
        Some(s) => s@,
        None => "5000"@,
    };
    if let Some(n) = parsed_number(port, 65535) {
        assert("Port "@ + decimal_text(n) + " is in reserved range. Use port >= 1024"@ =~= "Port "@
            + (decimal_text(n) + " is in reserved range. Use port >= 1024"@));
    }
}

/// The number is what the variable writes, or the default where it writes none.
pub open spec fn decides(value: Option<String>, max: nat, default: nat, number: nat) -> bool {
    ||| value matches Some(s) && parsed_number(s@, max) == Some(number)
    ||| number == default && (value is None || (value matches Some(s) && parsed_number(
        s@,
        max,
    ) is None))
}

/// The origins are the pieces of their variable between commas, as many and in that order, each
/// without the white space around it; without the variable there is the wildcard alone.
pub proof fn law_origins(env: EnvVars)
    ensures
        env.config() matches Ok(c) ==> {
            &&& env.allowed_origins is None ==> c.allowed_origins == seq!["*"@]
            &&& env.allowed_origins matches Some(s) ==> {
                &&& c.allowed_origins.len() == split_on(s@, ',').len()
                &&& forall|i: int|
                    0 <= i < c.allowed_origins.len() ==> #[trigger] c.allowed_origins[i] == trimmed(
                        split_on(s@, ',')[i],
                    )
            }
        },
{
    if env.allowed_origins is None {
        reveal_strlit("*");
        let star = "*"@;
        assert(!star.contains(','));
        crate::text::lemma_split_none(star, ',');
        assert(trimmed(star) == star);
        assert(env.origins() =~= seq![star]);
    }
}

/// The service listens on every interface, and behind the colon the port can be read back.
pub proof fn law_listen_address(c: ConfigView)
    ensures
        c.listen_text().len() > 8,
        c.listen_text().take(8) == "0.0.0.0:"@,
        parsed_number(c.listen_text().skip(8), 65535) == Some(c.port as nat),
{
    reveal_strlit("0.0.0.0:");
    crate::text::law_decimal(c.port as nat, 65535);
    crate::text::lemma_decimal_digits(c.port as nat);
    assert(c.listen_text().take(8) =~= "0.0.0.0:"@);
    assert(c.listen_text().skip(8) =~= decimal_text(c.port as nat));
}

/// A configuration seen from outside has its own settings, and the message of a refused port ends
/// with the port.
pub proof fn law_config_view(c: Config, port: String)
    ensures
        c@.port == c.port,
        c.chrome_path is None <==> c@.chrome_path is None,
        c.chrome_path matches Some(s) ==> c@.chrome_path == Some(s@),
        c@.rust_log == c.rust_log@,
        c@.allowed_origins.len() == c.allowed_origins@.len(),
        forall|i: int|
            0 <= i < c.allowed_origins@.len() ==> #[trigger] c@.allowed_origins[i]
                == c.allowed_origins@[i]@,
        c@.max_pdf_size_mb == c.max_pdf_size_mb,
        c@.request_timeout_seconds == c.request_timeout_seconds,
        c@.browser_pool_min == c.browser_pool_min,
        c@.browser_pool_max == c.browser_pool_max,
        ConfigError::InvalidPort(port).message_text() == "Invalid port number: "@ + port@,
{
}

} // verus!
