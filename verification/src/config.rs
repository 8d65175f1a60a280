use vstd::prelude::*;

verus! {

/// Application settings loaded from config file and environment variables.
///
/// Priority order (highest first):
///   1. CLI arguments
///   2. Environment variables (e.g. MATRIX_URL, API_KEY, PORT …)
///   3. Config file specified by --config / CONFIG_FILE env var
///   4. Default `config.toml` in the working directory
///   5. Built-in defaults
#[derive(Debug)]
pub struct Settings {
    /// Listen address (default: "" → all interfaces)
    pub host: String,
    /// Listen port (default: 4785)
    pub port: u16,
    /// Unix socket path (Linux/macOS only, overrides host/port when set)
    pub server_path: Option<String>,
    /// Matrix homeserver URL (default: https://matrix.org)
    pub matrix_url: String,
    /// Bot Matrix user ID (e.g. @mybot:matrix.org)
    pub matrix_id: String,
    /// Bot password — used to obtain an access token on startup
    pub matrix_pw: Option<String>,
    /// Pre-existing access token (preferred over matrix_pw)
    pub matrix_token: Option<String>,
    /// Shared secret used to authenticate incoming webhook requests
    pub api_key: String,
    /// Directory containing custom Lua formatters (optional)
    pub formatters_dir: Option<String>,
    /// Log verbosity: 0=error 1=warn 2=info 3=debug 4=trace (default: 2)
    pub verbosity: u8,
}

pub fn default_host() -> (r: String)
    ensures
        r@ == Seq::<char>::empty(),
{
    String::new()
}

pub fn default_port() -> (r: u16)
    ensures
        r == 4785,
{
    4785
}

pub fn default_matrix_url() -> (r: String)
    ensures
        r@ == "https://matrix.org"@,
{
    String::from_str("https://matrix.org")
}

pub fn default_verbosity() -> (r: u8)
    ensures
        r == 2,
{
    2
}

/// The command-line arguments: the highest priority source, overriding
/// everything else.
#[derive(Debug)]
pub struct CliArgs {
    /// Listen address
    pub host: Option<String>,
    /// Listen port
    pub port: Option<u16>,
    /// Unix socket path (overrides --host / --port)
    pub server_path: Option<String>,
    /// Matrix homeserver URL
    pub matrix_url: Option<String>,
    /// Bot Matrix user ID (e.g. @bot:matrix.org)
    pub matrix_id: Option<String>,
    /// Bot password (used to obtain an access token)
    pub matrix_pw: Option<String>,
    /// Pre-existing Matrix access token (preferred over --matrix-pw)
    pub matrix_token: Option<String>,
    /// Shared secret for authenticating webhook requests
    pub api_key: Option<String>,
    /// Directory containing custom Lua formatters
    pub formatters_dir: Option<String>,
    /// Verbosity level: the number of `-v` flags
    pub verbose: u8,
    /// Path to TOML config file (overrides CONFIG_FILE env var)
    pub config: Option<String>,
}

/// `cli.or(old)`, on values.
pub open spec fn override_with<T>(cli: Option<T>, old: T) -> T {
    match cli {
        Some(v) => v,
        None => old,
    }
}

/// `cli.or(old)` for optional settings.
pub open spec fn override_opt<T>(cli: Option<T>, old: Option<T>) -> Option<T> {
    match cli {
        Some(v) => Some(v),
        None => old,
    }
}

impl Settings {
    /// The settings with every argument given on the command line put in place
    /// of the value from the other sources; `-v` counts only when given.
    pub fn with_cli_args(self, args: CliArgs) -> (r: Settings)
        ensures
            r.host == override_with(args.host, self.host),
            r.port == override_with(args.port, self.port),
            r.server_path == override_opt(args.server_path, self.server_path),
            r.matrix_url == override_with(args.matrix_url, self.matrix_url),
            r.matrix_id == override_with(args.matrix_id, self.matrix_id),
            r.matrix_pw == override_opt(args.matrix_pw, self.matrix_pw),
            r.matrix_token == override_opt(args.matrix_token, self.matrix_token),
            r.api_key == override_with(args.api_key, self.api_key),
            r.formatters_dir == override_opt(args.formatters_dir, self.formatters_dir),
            r.verbosity == if args.verbose > 0 {
                args.verbose
            } else {
                self.verbosity
            },
    {
        let mut settings = self;
        if let Some(v) = args.host {
            settings.host = v;
        }
        if let Some(v) = args.port {
            settings.port = v;
        }
        if args.server_path.is_some() {
            settings.server_path = args.server_path;
        }
        if let Some(v) = args.matrix_url {
            settings.matrix_url = v;
        }
        if let Some(v) = args.matrix_id {
            settings.matrix_id = v;
        }
        if args.matrix_pw.is_some() {
            settings.matrix_pw = args.matrix_pw;
        }
        if args.matrix_token.is_some() {
            settings.matrix_token = args.matrix_token;
        }
        if let Some(v) = args.api_key {
            settings.api_key = v;
        }
        if args.formatters_dir.is_some() {
            settings.formatters_dir = args.formatters_dir;
        }
        if args.verbose > 0 {
            settings.verbosity = args.verbose;
        }
        settings
    }
}

/// The settings as the config files, the environment and the defaults give
/// them, before the command line: the required `matrix_id` and `api_key` may
/// still be missing, since the command line can supply them.
#[derive(Debug)]
pub struct PartialSettings {
    pub host: String,
    pub port: u16,
    pub server_path: Option<String>,
    pub matrix_url: String,
    pub matrix_id: Option<String>,
    pub matrix_pw: Option<String>,
    pub matrix_token: Option<String>,
    pub api_key: Option<String>,
    pub formatters_dir: Option<String>,
    pub verbosity: u8,
}

/// A required setting that no source gave.
#[derive(Clone, Copy, PartialEq, Eq, Structural, Debug)]
pub enum MissingSetting {
    MatrixId,
    ApiKey,
}

impl MissingSetting {
    /// The name of the setting.
    pub fn name(&self) -> (r: &'static str)
        ensures
            r@ == match *self {
                MissingSetting::MatrixId => "matrix_id"@,
                MissingSetting::ApiKey => "api_key"@,
            },
    {
        match self {
            MissingSetting::MatrixId => "matrix_id",
            MissingSetting::ApiKey => "api_key",
        }
    }
}

impl PartialSettings {
    /// The settings once the command line, which overrides everything, is put
    /// on top; a required setting that neither the command line nor another
    /// source gave is reported (`matrix_id` first).
    pub fn complete_with(self, args: CliArgs) -> (r: Result<Settings, MissingSetting>)
        ensures
            match (override_opt(args.matrix_id, self.matrix_id), override_opt(args.api_key, self.api_key)) {
                (None, _) => r == Err::<Settings, MissingSetting>(MissingSetting::MatrixId),
                (Some(_), None) => r == Err::<Settings, MissingSetting>(MissingSetting::ApiKey),
                (Some(id), Some(key)) => r matches Ok(st) && {
                    &&& st.matrix_id == id
                    &&& st.api_key == key
                    &&& st.host == override_with(args.host, self.host)
                    &&& st.port == override_with(args.port, self.port)
                    &&& st.server_path == override_opt(args.server_path, self.server_path)
                    &&& st.matrix_url == override_with(args.matrix_url, self.matrix_url)
                    &&& st.matrix_pw == override_opt(args.matrix_pw, self.matrix_pw)
                    &&& st.matrix_token == override_opt(args.matrix_token, self.matrix_token)
                    &&& st.formatters_dir == override_opt(args.formatters_dir, self.formatters_dir)
                    &&& st.verbosity == if args.verbose > 0 {
                        args.verbose
                    } else {
                        self.verbosity
                    }
                },
            },
    {
        let matrix_id = match args.matrix_id {
            Some(v) => v,
            None => match self.matrix_id {
                Some(v) => v,
                None => return Err(MissingSetting::MatrixId),
            },
        };
        let api_key = match args.api_key {
            Some(v) => v,
            None => match self.api_key {
                Some(v) => v,
                None => return Err(MissingSetting::ApiKey),
            },
        };
        let settings = Settings {
            host: self.host,
            port: self.port,
            server_path: self.server_path,
            matrix_url: self.matrix_url,
            matrix_id,
            matrix_pw: self.matrix_pw,
            matrix_token: self.matrix_token,
            api_key,
            formatters_dir: self.formatters_dir,
            verbosity: self.verbosity,
        };
        let rest = CliArgs {
            host: args.host,
            port: args.port,
            server_path: args.server_path,
            matrix_url: args.matrix_url,
            matrix_id: None,
            matrix_pw: args.matrix_pw,
            matrix_token: args.matrix_token,
            api_key: None,
            formatters_dir: args.formatters_dir,
            verbose: args.verbose,
            config: args.config,
        };
        Ok(settings.with_cli_args(rest))
    }
}

/// The config file to read: `--config`, else the `CONFIG_FILE` environment
/// variable, else none (the empty name).
pub fn config_file_name(cli_config: Option<String>, env_config: Option<String>) -> (r: String)
    ensures
        r@ == match (cli_config, env_config) {
            (Some(c), _) => c@,
            (None, Some(e)) => e@,
            (None, None) => Seq::<char>::empty(),
        },
{
    match cli_config {
        Some(c) => c,
        None => match env_config {
            Some(e) => e,
            None => String::new(),
        },
    }
}

/// The log level for a verbosity: 0=error 1=warn 2=info 3=debug, above that trace.
pub open spec fn level_for(verbosity: u8) -> Seq<char> {
    if verbosity == 0 {
        "error"@
    } else if verbosity == 1 {
        "warn"@
    } else if verbosity == 2 {
        "info"@
    } else if verbosity == 3 {
        "debug"@
    } else {
        "trace"@
    }
}

pub fn log_level(verbosity: u8) -> (r: &'static str)
    ensures
        r@ == level_for(verbosity),
{
    match verbosity {
        0 => "error",
        1 => "warn",
        2 => "info",
        3 => "debug",
        _ => "trace",
    }
}

} // verus!
