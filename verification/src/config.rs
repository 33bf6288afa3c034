//! Loading, checking and saving the configuration.

use crate::error::{outcome, ErrorView, PyopsError};
use crate::model::{
    default_config, AgentConfig, AppSpec, AppSpecView, ConfigFile, ConfigView, WebConfig, WebView,
};
use crate::paths::{join_path, joined};
use crate::schedule::{parse_restart_schedule, schedule_of};
use crate::text::{
    after_prefix, blank, cat3, cat4, has_prefix, is_blank, lemma_blank_is_trimmed_empty, same,
    starts_with, strip_prefix, texts, trim, trimmed,
};
use vstd::prelude::*;

verus! {

// ---- Where things are ----

/// The configuration path, given the value of `PYM2_CONFIG`, where it is set.
pub open spec fn config_path(env: Option<Seq<char>>) -> Seq<char> {
    match env {
        Some(v) if !blank(v) => trim(v),
        _ => "/etc/pym2/config.toml"@,
    }
}

/// The view of an optional borrowed text.
pub open spec fn opt_str(o: Option<&str>) -> Option<Seq<char>> {
    match o {
        Some(s) => Some(s@),
        None => None,
    }
}

/// The configuration path, given the value of `PYM2_CONFIG`, where it is set.
pub fn default_config_path(env: Option<&str>) -> (r: Result<String, PyopsError>)
    ensures
        outcome(r) == Ok::<Seq<char>, ErrorView>(config_path(opt_str(env))),
{
    if let Some(path) = env {
        let trimmed_path = trimmed(path);
        proof {
            lemma_blank_is_trimmed_empty(path@);
        }
        if !trimmed_path.as_str().is_empty() {
            return Ok(trimmed_path);
        }
    }
    Ok("/etc/pym2/config.toml".to_string())
}

/// `input` with a leading `~` resolved to the home directory.
pub open spec fn tilde_expanded(input: Seq<char>, home: Option<Seq<char>>) -> Result<
    Seq<char>,
    ErrorView,
> {
    if !starts_with(input, "~"@) {
        Ok(input)
    } else {
        match home {
            None => Err(ErrorView::Config("HOME is not set; cannot resolve '~' paths"@)),
            Some(home) => if input == "~"@ {
                Ok(home)
            } else {
                match after_prefix(input, "~/"@) {
                    Some(suffix) => Ok(joined(home, suffix)),
                    None => Err(ErrorView::Config("unsupported '~' form: "@ + input)),
                }
            },
        }
    }
}

/// `input` with a leading `~` resolved to the home directory.
pub fn expand_tilde(input: &str, home: Option<&str>) -> (r: Result<String, PyopsError>)
    ensures
        outcome(r) == tilde_expanded(input@, opt_str(home)),
{
    if !has_prefix(input, "~") {
        return Ok(input.to_owned());
    }
    let home = match home {
        Some(home) => home,
        None => {
            return Err(
                PyopsError::Config("HOME is not set; cannot resolve '~' paths".to_string()),
            );
        },
    };
    if same(input, "~") {
        return Ok(home.to_owned());
    }
    match strip_prefix(input, "~/") {
        Some(suffix) => Ok(join_path(home, suffix.as_str())),
        None => Err(PyopsError::Config(crate::text::cat2("unsupported '~' form: ", input))),
    }
}

/// The directories and the socket that the agent works with.
pub struct StatePaths {
    pub state_dir: String,
    pub socket: String,
    pub logs_dir: String,
}

pub struct StatePathsView {
    pub state_dir: Seq<char>,
    pub socket: Seq<char>,
    pub logs_dir: Seq<char>,
}

impl View for StatePaths {
    type V = StatePathsView;

    open spec fn view(&self) -> StatePathsView {
        StatePathsView {
            state_dir: self.state_dir@,
            socket: self.socket@,
            logs_dir: self.logs_dir@,
        }
    }
}

/// The directories and the socket of a configuration.
pub open spec fn state_paths(cfg: ConfigView, home: Option<Seq<char>>) -> Result<
    StatePathsView,
    ErrorView,
> {
    match tilde_expanded(cfg.agent.state_dir, home) {
        Err(e) => Err(e),
        Ok(state_dir) => match tilde_expanded(cfg.agent.socket, home) {
            Err(e) => Err(e),
            Ok(socket) => Ok(
                StatePathsView { state_dir, socket, logs_dir: joined(state_dir, "logs"@) },
            ),
        },
    }
}

/// The directories and the socket of a configuration, which the agent creates
/// before it uses them.
pub fn ensure_state_dirs(cfg: &ConfigFile, home: Option<&str>) -> (r: Result<
    StatePaths,
    PyopsError,
>)
    ensures
        outcome(r) == state_paths(cfg@, opt_str(home)),
{
    let state_dir = match expand_tilde(cfg.agent.state_dir.as_str(), home) {
        Ok(dir) => dir,
        Err(e) => {
            return Err(e);
        },
    };
    let socket = match expand_tilde(cfg.agent.socket.as_str(), home) {
        Ok(path) => path,
        Err(e) => {
            return Err(e);
        },
    };
    let logs_dir = join_path(state_dir.as_str(), "logs");
    Ok(StatePaths { state_dir, socket, logs_dir })
}

// ---- Checking ----

/// Whether `host` names the machine itself.
pub open spec fn loopback(host: Seq<char>) -> bool {
    host == "127.0.0.1"@ || host == "localhost"@ || host == "::1"@ || host == "[::1]"@
}

/// Whether `host` names the machine itself.
pub fn is_loopback_host(host: &str) -> (r: bool)
    ensures
        r == loopback(host@),
{
    same(host, "127.0.0.1") || same(host, "localhost") || same(host, "::1") || same(host, "[::1]")
}

/// What is wrong with an app specification, the first thing first.
pub open spec fn app_problem(app: AppSpecView) -> Option<ErrorView> {
    if blank(app.name) {
        Some(ErrorView::Config("app name cannot be empty"@))
    } else if blank(app.cwd) {
        Some(ErrorView::Config("app '"@ + app.name + "' cwd cannot be empty"@))
    } else if app.command.len() == 0 && blank(app.venv) {
        Some(
            ErrorView::Config(
                "app '"@ + app.name + "' venv cannot be empty when command is not set"@,
            ),
        )
    } else if app.command.len() == 0 && blank(app.entry) {
        Some(
            ErrorView::Config(
                "app '"@ + app.name
                    + "' is missing command and legacy fields; set command=[\"python\",\"-m\",\"uvicorn\",\"app.main:app\"] or provide venv+entry"@,
            ),
        )
    } else if app.command.len() > 0 && blank(app.command[0]) {
        Some(
            ErrorView::Config("app '"@ + app.name + "' command executable cannot be empty"@),
        )
    } else if app.env_file is Some && blank(app.env_file->0) {
        Some(ErrorView::Config("app '"@ + app.name + "' env_file cannot be empty"@))
    } else if app.restart_schedule is Some && schedule_of(app.restart_schedule->0) is Err {
        Some(schedule_of(app.restart_schedule->0)->Err_0)
    } else {
        None
    }
}

/// What is wrong with the first app that has something wrong with it.
pub open spec fn apps_problem(apps: Seq<AppSpecView>) -> Option<ErrorView>
    decreases apps.len(),
{
    if apps.len() == 0 {
        None
    } else if app_problem(apps[0]) is Some {
        app_problem(apps[0])
    } else {
        apps_problem(apps.skip(1))
    }
}

/// Whether a password is set and is not blank.
pub open spec fn has_password(web: WebView) -> bool {
    web.password is Some && !blank(web.password->0)
}

/// What is wrong with the configuration of the web interface.
pub open spec fn web_problem(web: WebView) -> Option<ErrorView> {
    if blank(web.host) {
        Some(ErrorView::Config("agent.web.host cannot be empty"@))
    } else if web.port == 0 {
        Some(ErrorView::Config("agent.web.port must be in range 1..65535"@))
    } else if web.enabled && !loopback(trim(web.host)) && !has_password(web) {
        Some(
            ErrorView::Config(
                "Refusing to bind Web UI to public interface without auth token."@,
            ),
        )
    } else {
        None
    }
}

/// What is wrong with a configuration.
pub open spec fn config_problem(cfg: ConfigView) -> Option<ErrorView> {
    match apps_problem(cfg.apps) {
        Some(e) => Some(e),
        None => web_problem(cfg.agent.web),
    }
}

/// The result of a check that found the given problem.
pub open spec fn checked(problem: Option<ErrorView>) -> Result<(), ErrorView> {
    match problem {
        Some(e) => Err(e),
        None => Ok(()),
    }
}

fn validate_app(app: &AppSpec) -> (r: Result<(), PyopsError>)
    ensures
        outcome(r) == checked(app_problem(app@)),
{
    if is_blank(app.name.as_str()) {
        return Err(PyopsError::Config("app name cannot be empty".to_string()));
    }
    let name = app.name.as_str();
    if is_blank(app.cwd.as_str()) {
        return Err(PyopsError::Config(cat3("app '", name, "' cwd cannot be empty")));
    }
    if app.command.is_empty() {
        if is_blank(app.venv.as_str()) {
            return Err(
                PyopsError::Config(
                    cat3("app '", name, "' venv cannot be empty when command is not set"),
                ),
            );
        }
        if is_blank(app.entry.as_str()) {
            return Err(
                PyopsError::Config(
                    cat3(
                        "app '",
                        name,
                        "' is missing command and legacy fields; set command=[\"python\",\"-m\",\"uvicorn\",\"app.main:app\"] or provide venv+entry",
                    ),
                ),
            );
        }
    } else {
        assert(app@.command[0] == app.command@[0]@);
        if is_blank(app.command[0].as_str()) {
            return Err(
                PyopsError::Config(cat3("app '", name, "' command executable cannot be empty")),
            );
        }
    }
    if let Some(env_file) = &app.env_file {
        if is_blank(env_file.as_str()) {
            return Err(PyopsError::Config(cat3("app '", name, "' env_file cannot be empty")));
        }
    }
    if let Some(schedule) = &app.restart_schedule {
        if let Err(e) = parse_restart_schedule(schedule.as_str()) {
            return Err(e);
        }
    }
    Ok(())
}

fn validate_web(web: &WebConfig) -> (r: Result<(), PyopsError>)
    ensures
        outcome(r) == checked(web_problem(web@)),
{
    if is_blank(web.host.as_str()) {
        return Err(PyopsError::Config("agent.web.host cannot be empty".to_string()));
    }
    if web.port == 0 {
        return Err(PyopsError::Config("agent.web.port must be in range 1..65535".to_string()));
    }
    let host = trimmed(web.host.as_str());
    if web.enabled && !is_loopback_host(host.as_str()) {
        let protected = match &web.password {
            Some(password) => !is_blank(password.as_str()),
            None => false,
        };
        if !protected {
            return Err(
                PyopsError::Config(
                    "Refusing to bind Web UI to public interface without auth token.".to_string(),
                ),
            );
        }
    }
    Ok(())
}

/// Checks a configuration: each app, then the web interface.
pub fn validate_config(cfg: &ConfigFile) -> (r: Result<(), PyopsError>)
    ensures
        outcome(r) == checked(config_problem(cfg@)),
{
    let ghost apps = cfg@.apps;
    let mut i: usize = 0;
    assert(apps.skip(0) =~= apps);
    while i < cfg.apps.len()
        invariant
            i <= cfg.apps@.len(),
            apps == cfg@.apps,
            apps_problem(apps.skip(i as int)) == apps_problem(apps),
        decreases cfg.apps@.len() - i,
    {
        assert(apps.skip(i as int)[0] == cfg.apps@[i as int]@);
        if let Err(e) = validate_app(&cfg.apps[i]) {
            return Err(e);
        }
        assert(apps.skip(i as int).skip(1) =~= apps.skip(i + 1));
        i += 1;
    }
    validate_web(&cfg.agent.web)
}

// ---- Loading and saving ----

/// What came of reading and parsing a configuration file.
pub enum ConfigSource {
    /// The file could not be read, for the reason given.
    Unreadable(String),
    /// The file is no TOML of the right shape, for the reason given.
    Malformed(String),
    Parsed(ConfigFile),
}

pub enum SourceView {
    Unreadable(Seq<char>),
    Malformed(Seq<char>),
    Parsed(ConfigView),
}

impl View for ConfigSource {
    type V = SourceView;

    open spec fn view(&self) -> SourceView {
        match self {
            ConfigSource::Unreadable(m) => SourceView::Unreadable(m@),
            ConfigSource::Malformed(m) => SourceView::Malformed(m@),
            ConfigSource::Parsed(cfg) => SourceView::Parsed(cfg@),
        }
    }
}

/// A configuration that passed its checks, with what to warn the user of.
pub struct LoadedConfig {
    pub config: ConfigFile,
    pub warnings: Vec<String>,
}

pub struct LoadedView {
    pub config: ConfigView,
    pub warnings: Seq<Seq<char>>,
}

impl View for LoadedConfig {
    type V = LoadedView;

    open spec fn view(&self) -> LoadedView {
        LoadedView { config: self.config@, warnings: texts(self.warnings@) }
    }
}

/// Whether the app is configured by its virtual environment and entry point.
pub open spec fn legacy(app: AppSpecView) -> bool {
    app.command.len() == 0 && !blank(app.venv) && !blank(app.entry)
}

/// The warnings that a configuration deserves: one for each legacy app.
pub open spec fn legacy_warnings(apps: Seq<AppSpecView>) -> Seq<Seq<char>>
    decreases apps.len(),
{
    if apps.len() == 0 {
        Seq::empty()
    } else if legacy(apps.last()) {
        legacy_warnings(apps.drop_last()).push(
            "warning: app '"@ + apps.last().name
                + "' uses legacy venv/entry config; this is deprecated, prefer command=[...]"@,
        )
    } else {
        legacy_warnings(apps.drop_last())
    }
}

/// The result of loading a configuration from `path`.
pub open spec fn loaded(path: Seq<char>, source: SourceView) -> Result<LoadedView, ErrorView> {
    match source {
        SourceView::Unreadable(m) => Err(
            ErrorView::Config("failed to read config "@ + path + ": "@ + m),
        ),
        SourceView::Malformed(m) => Err(ErrorView::TomlDe(m)),
        SourceView::Parsed(cfg) => match config_problem(cfg) {
            Some(e) => Err(e),
            None => Ok(LoadedView { config: cfg, warnings: legacy_warnings(cfg.apps) }),
        },
    }
}

fn warn_of_legacy(cfg: &ConfigFile) -> (r: Vec<String>)
    ensures
        texts(r@) == legacy_warnings(cfg@.apps),
{
    let mut out: Vec<String> = Vec::new();
    let ghost apps = cfg@.apps;
    let mut i: usize = 0;
    assert(texts(out@) =~= legacy_warnings(apps.take(0)));
    while i < cfg.apps.len()
        invariant
            i <= cfg.apps@.len(),
            apps == cfg@.apps,
            texts(out@) == legacy_warnings(apps.take(i as int)),
        decreases cfg.apps@.len() - i,
    {
        let app = &cfg.apps[i];
        assert(apps.take(i + 1).drop_last() =~= apps.take(i as int));
        assert(apps.take(i + 1).last() == app@);
        if app.command.is_empty() && !is_blank(app.venv.as_str()) && !is_blank(
            app.entry.as_str(),
        ) {
            let ghost before = texts(out@);
            let line = cat3(
                "warning: app '",
                app.name.as_str(),
                "' uses legacy venv/entry config; this is deprecated, prefer command=[...]",
            );
            out.push(line);
            assert(texts(out@) =~= before.push(line@));
        }
        i += 1;
    }
    assert(apps.take(i as int) =~= apps);
    out
}

/// A configuration from what came of reading and parsing the file at `path`.
pub fn load_config_from(path: &str, source: ConfigSource) -> (r: Result<LoadedConfig, PyopsError>)
    ensures
        outcome(r) == loaded(path@, source@),
{
    match source {
        ConfigSource::Unreadable(m) => Err(
            PyopsError::Config(cat4("failed to read config ", path, ": ", m.as_str())),
        ),
        ConfigSource::Malformed(m) => Err(PyopsError::TomlDe(m)),
        ConfigSource::Parsed(config) => {
            if let Err(e) = validate_config(&config) {
                return Err(e);
            }
            let warnings = warn_of_legacy(&config);
            Ok(LoadedConfig { config, warnings })
        },
    }
}

/// The configuration at the default path, from what came of reading and
/// parsing that file.
pub fn load_config(env: Option<&str>, source: ConfigSource) -> (r: Result<
    LoadedConfig,
    PyopsError,
>)
    ensures
        outcome(r) == loaded(config_path(opt_str(env)), source@),
{
    match default_config_path(env) {
        Ok(path) => load_config_from(path.as_str(), source),
        Err(e) => Err(e),
    }
}

/// What a client makes of a loaded configuration: a faulty one is as good as
/// none.
pub open spec fn client_config(loaded: Result<LoadedView, ErrorView>) -> Result<
    LoadedView,
    ErrorView,
> {
    match loaded {
        Err(ErrorView::Config(_)) => Ok(
            LoadedView { config: default_config(), warnings: Seq::empty() },
        ),
        other => other,
    }
}

/// The configuration of a client: the one at the default path, or the built-in
/// one where that cannot be used.
pub fn load_config_or_defaults_for_client(env: Option<&str>, source: ConfigSource) -> (r: Result<
    LoadedConfig,
    PyopsError,
>)
    ensures
        outcome(r) == client_config(loaded(config_path(opt_str(env)), source@)),
{
    match load_config(env, source) {
        Ok(cfg) => Ok(cfg),
        Err(PyopsError::Config(_)) => {
            let apps: Vec<AppSpec> = Vec::new();
            let warnings: Vec<String> = Vec::new();
            let config = ConfigFile { agent: AgentConfig::default(), apps };
            assert(config@.apps =~= Seq::<AppSpecView>::empty());
            assert(texts(warnings@) =~= Seq::<Seq<char>>::empty());
            Ok(LoadedConfig { config, warnings })
        },
        Err(err) => Err(err),
    }
}

/// The text to write to `path`, given how the configuration renders as TOML.
pub open spec fn to_save(
    path: Seq<char>,
    cfg: ConfigView,
    rendered: Result<Seq<char>, Seq<char>>,
) -> Result<Seq<char>, ErrorView> {
    match config_problem(cfg) {
        Some(e) => Err(e),
        None => match rendered {
            Ok(text) => Ok(text),
            Err(m) => Err(
                ErrorView::Config("failed to serialize config "@ + path + ": "@ + m),
            ),
        },
    }
}

/// The view of a rendering that may have failed.
pub open spec fn rendering(r: Result<String, String>) -> Result<Seq<char>, Seq<char>> {
    match r {
        Ok(text) => Ok(text@),
        Err(m) => Err(m@),
    }
}

/// The text to write to `path`, given how the configuration renders as TOML:
/// a configuration that does not pass its checks is not saved.
pub fn save_config_to(path: &str, cfg: &ConfigFile, rendered: Result<String, String>) -> (r: Result<
    String,
    PyopsError,
>)
    ensures
        outcome(r) == to_save(path@, cfg@, rendering(rendered)),
{
    if let Err(e) = validate_config(cfg) {
        return Err(e);
    }
    match rendered {
        Ok(text) => Ok(text),
        Err(m) => Err(
            PyopsError::Config(cat4("failed to serialize config ", path, ": ", m.as_str())),
        ),
    }
}

// ---- What the checks promise ----

proof fn lemma_apps_problem(apps: Seq<AppSpecView>)
    ensures
        apps_problem(apps) is None <==> forall|i: int|
            0 <= i < apps.len() ==> app_problem(#[trigger] apps[i]) is None,
    decreases apps.len(),
{
    if apps.len() > 0 {
        let t = apps.skip(1);
        lemma_apps_problem(t);
        if app_problem(apps[0]) is None && apps_problem(t) is None {
            assert forall|i: int| 0 <= i < apps.len() implies app_problem(#[trigger] apps[i])
                is None by {
                if i > 0 {
                    assert(apps[i] == t[i - 1]);
                }
            }
        }
        if forall|i: int| 0 <= i < apps.len() ==> app_problem(#[trigger] apps[i]) is None {
            assert forall|i: int| 0 <= i < t.len() implies app_problem(#[trigger] t[i]) is None by {
                assert(t[i] == apps[i + 1]);
            }
        }
    }
}

/// A configuration that passes its checks never offers the web interface to
/// other machines without a password.
pub proof fn law_public_web_needs_password(cfg: ConfigView)
    requires
        config_problem(cfg) is None,
        cfg.agent.web.enabled,
        !loopback(trim(cfg.agent.web.host)),
    ensures
        has_password(cfg.agent.web),
{
}

/// A configuration passes its checks exactly when every app does and the web
/// interface does: what one app holds never excuses another.
pub proof fn law_every_app_is_checked(cfg: ConfigView)
    ensures
        config_problem(cfg) is None <==> {
            &&& forall|i: int|
                0 <= i < cfg.apps.len() ==> app_problem(#[trigger] cfg.apps[i]) is None
            &&& web_problem(cfg.agent.web) is None
        },
{
    lemma_apps_problem(cfg.apps);
}

/// An app that passes its checks has a name, a directory and something to run.
pub proof fn law_checked_app_can_run(app: AppSpecView)
    requires
        app_problem(app) is None,
    ensures
        !blank(app.name),
        !blank(app.cwd),
        app.command.len() > 0 && !blank(app.command[0]) || app.command.len() == 0 && !blank(
            app.venv,
        ) && !blank(app.entry),
        app.restart_schedule is Some ==> schedule_of(app.restart_schedule->0) is Ok,
{
}

/// A configuration that was saved is the one that is loaded back, in every field,
/// provided that `parse` reads the rendered text as what was rendered.
pub proof fn law_saved_config_loads(
    path: Seq<char>,
    cfg: ConfigView,
    rendered: Result<Seq<char>, Seq<char>>,
    parse: spec_fn(Seq<char>) -> SourceView,
)
    requires
        rendered matches Ok(text) ==> parse(text) == SourceView::Parsed(cfg),
    ensures
        to_save(path, cfg, rendered) matches Ok(text) ==> {
            &&& loaded(path, parse(text)) matches Ok(back)
            &&& back.config == cfg
        },
{
}

/// An app is accepted if and only if it has a name and a directory, and either a
/// command whose first word is not blank or both a virtual environment and an
/// entry point, no blank environment file, and no schedule that cannot be read.
pub proof fn law_apps_are_accepted(app: AppSpecView)
    ensures
        app_problem(app) is None <==> {
            &&& !blank(app.name)
            &&& !blank(app.cwd)
            &&& app.command.len() > 0 ==> !blank(app.command[0])
            &&& app.command.len() == 0 ==> !blank(app.venv) && !blank(app.entry)
            &&& app.env_file matches Some(file) ==> !blank(file)
            &&& app.restart_schedule matches Some(text) ==> schedule_of(text) is Ok
        },
        app_problem(app) matches Some(e) ==> e is Config || (app.restart_schedule is Some && Err::<
            crate::schedule::RestartSchedule,
            ErrorView,
        >(e) == schedule_of(app.restart_schedule->0)),
{
}

/// A web interface is accepted if and only if it has a host and a port, and, where
/// it is on and its host is not this machine, a password that is not blank.
pub proof fn law_web_is_accepted(web: WebView)
    ensures
        web_problem(web) is None <==> {
            &&& !blank(web.host)
            &&& web.port != 0
            &&& web.enabled && trim(web.host) != "127.0.0.1"@ && trim(web.host) != "localhost"@
                && trim(web.host) != "::1"@ && trim(web.host) != "[::1]"@ ==> (
            web.password matches Some(p) && !blank(p))
        },
{
}

/// The first thing that is wrong is the one that is told: an app before the web
/// interface, and of two apps the one that stands first.
pub proof fn law_first_problem_is_told(front: Seq<AppSpecView>, app: AppSpecView, cfg: ConfigView)
    requires
        forall|i: int| 0 <= i < front.len() ==> app_problem(#[trigger] front[i]) is None,
        app_problem(app) is Some,
        front.len() < cfg.apps.len(),
        cfg.apps.take(front.len() as int) == front,
        cfg.apps[front.len() as int] == app,
    ensures
        config_problem(cfg) == app_problem(app),
{
    lemma_first_problem(cfg.apps, front.len() as int);
}

proof fn lemma_first_problem(apps: Seq<AppSpecView>, n: int)
    requires
        0 <= n < apps.len(),
        forall|i: int| 0 <= i < n ==> app_problem(#[trigger] apps.take(n)[i]) is None,
        app_problem(apps[n]) is Some,
    ensures
        apps_problem(apps) == app_problem(apps[n]),
    decreases n,
{
    if n > 0 {
        let rest = apps.skip(1);
        assert(app_problem(apps.take(n)[0]) is None);
        assert forall|i: int| 0 <= i < n - 1 implies app_problem(
            #[trigger] rest.take(n - 1)[i],
        ) is None by {
            assert(rest.take(n - 1)[i] == apps.take(n)[i + 1]);
        }
        lemma_first_problem(rest, n - 1);
    }
}

/// The configuration is the file that `PYM2_CONFIG` names, where it names one, and
/// else the one of the system.
pub proof fn law_configuration_path(value: Seq<char>)
    ensures
        config_path(None) == "/etc/pym2/config.toml"@,
        blank(value) ==> config_path(Some(value)) == "/etc/pym2/config.toml"@,
        !blank(value) ==> config_path(Some(value)) == trim(value),
{
}

/// A path that begins with a tilde and a slash is one in the home directory, and a
/// tilde alone is that directory; a path without is left as it is. Any other tilde,
/// and any at all where there is no home, is an error.
pub proof fn law_tildes_stand_for_home(home: Seq<char>, rest: Seq<char>, input: Seq<char>)
    ensures
        input.len() > 0 && input[0] != '~' ==> tilde_expanded(input, Some(home)) == Ok::<
            Seq<char>,
            ErrorView,
        >(input) && tilde_expanded(input, None) == Ok::<Seq<char>, ErrorView>(input),
        tilde_expanded(seq!['~'], Some(home)) == Ok::<Seq<char>, ErrorView>(home),
        tilde_expanded(seq!['~', '/'] + rest, Some(home)) == Ok::<Seq<char>, ErrorView>(
            joined(home, rest),
        ),
        tilde_expanded(seq!['~'] + rest, None) is Err,
        rest.len() > 0 && rest[0] != '/' ==> tilde_expanded(seq!['~'] + rest, Some(home)) is Err,
{
    reveal_strlit("~");
    reveal_strlit("~/");
    assert("~"@ =~= seq!['~']);
    assert("~/"@ =~= seq!['~', '/']);
    if input.len() > 0 {
        assert(input.take(1) =~= seq![input[0]]);
        assert(seq![input[0]][0] == input[0] && seq!['~'][0] == '~');
    }
    let alone = seq!['~'];
    assert(alone.take(1) =~= seq!['~']);
    let s = seq!['~', '/'] + rest;
    assert(s.take(1) =~= seq!['~']);
    assert(s.take(2) =~= seq!['~', '/']);
    assert(s.skip(2) =~= rest);
    assert(s.len() >= 2);
    let t = seq!['~'] + rest;
    assert(t.take(1) =~= seq!['~']);
    if rest.len() > 0 && rest[0] != '/' {
        assert(t.len() >= 2);
        assert(t.take(2)[1] == rest[0]);
        assert(seq!['~', '/'][1] == '/');
    }
}

/// The agent keeps its logs below the directory of its state.
pub proof fn law_state_paths(cfg: ConfigView, home: Option<Seq<char>>)
    ensures
        state_paths(cfg, home) is Ok <==> tilde_expanded(cfg.agent.state_dir, home) is Ok
            && tilde_expanded(cfg.agent.socket, home) is Ok,
        state_paths(cfg, home) matches Ok(paths) ==> {
            &&& tilde_expanded(cfg.agent.state_dir, home) == Ok::<Seq<char>, ErrorView>(
                paths.state_dir,
            )
            &&& tilde_expanded(cfg.agent.socket, home) == Ok::<Seq<char>, ErrorView>(paths.socket)
            &&& paths.logs_dir == joined(paths.state_dir, "logs"@)
        },
{
}

/// A configuration is loaded if and only if the file can be read, is TOML of the
/// right shape and passes its checks; it is then the one in the file. A client
/// goes on with the built-in one where the file cannot be read or does not pass,
/// but not where it is malformed.
pub proof fn law_loading(path: Seq<char>, cfg: ConfigView, why: Seq<char>)
    ensures
        loaded(path, SourceView::Unreadable(why)) == Err::<LoadedView, ErrorView>(
            ErrorView::Config("failed to read config "@ + path + ": "@ + why),
        ),
        loaded(path, SourceView::Malformed(why)) == Err::<LoadedView, ErrorView>(
            ErrorView::TomlDe(why),
        ),
        config_problem(cfg) is None ==> (loaded(path, SourceView::Parsed(cfg)) matches Ok(l)
            && l.config == cfg),
        config_problem(cfg) matches Some(e) ==> loaded(path, SourceView::Parsed(cfg)) == Err::<
            LoadedView,
            ErrorView,
        >(e),
        client_config(loaded(path, SourceView::Unreadable(why))) matches Ok(l) && l.config
            == default_config(),
        client_config(loaded(path, SourceView::Malformed(why))) == Err::<LoadedView, ErrorView>(
            ErrorView::TomlDe(why),
        ),
        config_problem(cfg) is None ==> client_config(loaded(path, SourceView::Parsed(cfg)))
            == loaded(path, SourceView::Parsed(cfg)),
{
}

/// One warning is given for each app that is configured by its virtual environment
/// and its entry point alone, and names it.
pub proof fn law_legacy_apps_are_warned_of(apps: Seq<AppSpecView>, app: AppSpecView)
    ensures
        app.command.len() == 0 && !blank(app.venv) && !blank(app.entry) ==> legacy_warnings(
            apps.push(app),
        ) == legacy_warnings(apps).push(
            "warning: app '"@ + app.name
                + "' uses legacy venv/entry config; this is deprecated, prefer command=[...]"@,
        ),
        !(app.command.len() == 0 && !blank(app.venv) && !blank(app.entry)) ==> legacy_warnings(
            apps.push(app),
        ) == legacy_warnings(apps),
        legacy_warnings(Seq::empty()).len() == 0,
{
    assert(apps.push(app).drop_last() =~= apps);
}

} // verus!
