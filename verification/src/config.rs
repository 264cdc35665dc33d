//! The application configuration: plain data, read from `config.toml` at
//! the program's edge and handed in as values.

use vstd::prelude::*;

verus! {

/// Command-line options of the server.
#[derive(Debug, Clone)]
pub struct Args {
    /// Use the existing content checkout instead of cloning anew.
    pub local: bool,
    /// The path of the configuration file.
    pub config: String,
}

impl Default for Args {
    /// The defaults: no local checkout, configuration at `config.toml`.
    fn default() -> (r: Self)
        ensures
            !r.local,
            r.config@ == "config.toml"@,
    {
        Args { local: false, config: String::from_str("config.toml") }
    }
}

/// Where content comes from and where rendered output goes.
#[derive(Debug, Clone)]
pub struct ParseConfig {
    /// The content repository to clone.
    pub git_url: String,
    /// Where the repository is checked out.
    pub clone_path: String,
    /// Where rendered output is written.
    pub output_path: String,
}

/// The HTTP server's settings.
#[derive(Debug, Clone)]
pub struct ServerConfig {
    /// The host to bind.
    pub host: String,
    /// The port to bind.
    pub port: u16,
    /// How many worker threads to run.
    pub threads: usize,
    /// The timeout of outbound requests, in seconds.
    pub req_duration: u64,
    /// Where the database lives.
    pub db_path: String,
}

/// The configured authentication providers, if any.
#[derive(Debug, Clone)]
pub struct AuthConfig {
    /// Google OAuth, if configured.
    pub google_oauth: Option<GoogleOauth>,
    /// GitHub OAuth, if configured.
    pub github_oauth: Option<GithubOauth>,
}

impl Default for AuthConfig {
    /// The default: no provider configured.
    fn default() -> (r: Self)
        ensures
            r.google_oauth is None,
            r.github_oauth is None,
    {
        AuthConfig { google_oauth: None, github_oauth: None }
    }
}

/// The whole application configuration.
#[derive(Debug, Clone)]
pub struct Config {
    /// The HTTP server's settings.
    pub server: ServerConfig,
    /// The sandboxed runner's settings.
    pub docker: Docker,
    /// The authentication providers.
    pub auth: AuthConfig,
    /// The content pipeline's settings.
    pub parse: ParseConfig,
    /// The command-line options.
    pub args: Args,
}

/// The sandboxed runner's settings.
#[derive(Debug, Clone)]
pub struct Docker {
    /// Where temporary code files go.
    pub tmp_folder: String,
    /// The container command to invoke.
    pub command: String,
    /// The execution timeout, in seconds.
    pub timeout: u64,
}

/// Google OAuth credentials.
#[derive(Debug, Clone)]
pub struct GoogleOauth {
    /// The client id.
    pub client_id: String,
    /// The client secret.
    pub client_secret: String,
    /// The externally visible URL of this deployment.
    pub external_url: String,
}

/// GitHub OAuth credentials.
#[derive(Debug, Clone)]
pub struct GithubOauth {
    /// The app id.
    pub app_id: String,
    /// The app secret.
    pub app_secret: String,
}

/// One runnable language's runner settings.
#[derive(Debug, Clone)]
pub struct LanguageConfig {
    /// The language's name.
    pub name: String,
    /// Where the language's runner files live.
    pub path: String,
    /// The container image that runs it.
    pub image_name: String,
    /// Where submitted source is mounted inside the image.
    pub source_path: String,
}

/// The first language configuration with this name, if any.
pub fn find_lang<'a>(configs: &'a Vec<LanguageConfig>, lang: &str) -> (r: Option<
    &'a LanguageConfig,
>)
    ensures
        match r {
            Some(c) => exists|k: int|
                0 <= k < configs@.len() && configs@[k] == *c && c.name@ == lang@ && forall|p: int|
                    0 <= p < k ==> configs@[p].name@ != lang@,
            None => forall|k: int| 0 <= k < configs@.len() ==> configs@[k].name@ != lang@,
        },
{
    let n = configs.len();
    let mut i: usize = 0;
    while i < n
        invariant
            i <= n,
            n == configs@.len(),
            forall|p: int| 0 <= p < i ==> configs@[p].name@ != lang@,
        decreases n - i,
    {
        if crate::text::str_eq(configs[i].name.as_str(), lang) {
            return Some(&configs[i]);
        }
        i = i + 1;
    }
    None
}

/// Looking a language up by name.
pub trait GetLang {
    /// The language configurations this container holds, in order.
    spec fn lang_entries(&self) -> Seq<LanguageConfig>;

    /// The first configuration registered under `lang`, if any.
    fn get_lang(&self, lang: &str) -> (r: Option<&LanguageConfig>)
        ensures
            match r {
                Some(c) => exists|k: int|
                    0 <= k < self.lang_entries().len() && #[trigger] self.lang_entries()[k] == *c
                        && c.name@ == lang@,
                None => forall|k: int|
                    0 <= k < self.lang_entries().len()
                        ==> (#[trigger] self.lang_entries()[k]).name@ != lang@,
            },
    ;
}

impl GetLang for Vec<LanguageConfig> {
    open spec fn lang_entries(&self) -> Seq<LanguageConfig> {
        self@
    }

    fn get_lang(&self, lang: &str) -> (r: Option<&LanguageConfig>) {
        let r = find_lang(self, lang);
        proof {
            match r {
                Some(c) => {
                    let kw = choose|k: int|
                        0 <= k < self@.len() && self@[k] == *c && c.name@ == lang@ && (forall|
                            p: int,
                        | 0 <= p < k ==> self@[p].name@ != lang@);
                    assert(self.lang_entries()[kw] == self@[kw]);
                },
                None => {
                    assert forall|k: int| 0 <= k < self.lang_entries().len() implies (
                    #[trigger] self.lang_entries()[k]).name@ != lang@ by {
                        assert(self.lang_entries()[k] == self@[k]);
                    }
                },
            }
        }
        r
    }
}

} // verus!
