use vstd::prelude::*;

verus! {

/// Why a configuration could not be loaded.
#[derive(Debug)]
pub enum ConfigError {
    /// The file could not be read or written; the text says why.
    IoError(String),
    /// The file was read and is no valid configuration; the text says why.
    InvalidConfig(String),
}

/// The application's settings.
#[derive(Debug)]
pub struct AppConfig {
    pub grpcport: String,
    pub username: String,
    pub password: String,
    pub baseurl: String,
    pub urlget: String,
    pub urlfilter: Vec<(String, Vec<String>)>,
    pub entries: u32,
    pub filter1: String,
    pub filter2: String,
    pub urlput: String,
    pub printmode: bool,
    pub checkmode: bool,
    pub filemode: bool,
    pub filelist: String,
}

/// What was found where the configuration is kept.
#[derive(Debug)]
pub enum Stored {
    /// A file was there. It was read and parsed, or one of the two failed.
    Found(Result<AppConfig, ConfigError>),
    /// No file was there, and writing the default settings in its place
    /// worked or failed.
    Missing(Result<(), ConfigError>),
}

/// The settings that `AppConfig::default()` returns.
pub open spec fn is_default(c: AppConfig) -> bool {
    &&& c.grpcport@ == "http://[::1]:50051"@
    &&& c.username@ == "testuser"@
    &&& c.password@ == "testPW"@
    &&& c.baseurl@ == "http://localhost:8000"@
    &&& c.urlget@ == "/te?q=123+eq+123 AND "@
    &&& c.urlfilter@.len() == 1
    &&& c.urlfilter@[0].0@ == "aa::bb::cc"@
    &&& c.urlfilter@[0].1@.len() == 2
    &&& c.urlfilter@[0].1@[0]@ == "AA"@
    &&& c.urlfilter@[0].1@[1]@ == "BB"@
    &&& c.entries == 10
    &&& c.filter1@ == "AAccount"@
    &&& c.filter2@ == "Update"@
    &&& c.urlput@ == "/users"@
    &&& c.printmode
    &&& !c.checkmode
    &&& !c.filemode
    &&& c.filelist@ == "list.csv"@
}

impl Default for AppConfig {
    fn default() -> (r: Self)
        ensures
            is_default(r),
    {
        let mut names: Vec<String> = Vec::new();
        names.push("AA".to_owned());
        names.push("BB".to_owned());
        let mut urlfilter: Vec<(String, Vec<String>)> = Vec::new();
        urlfilter.push(("aa::bb::cc".to_owned(), names));
        AppConfig {
            grpcport: "http://[::1]:50051".to_owned(),
            username: "testuser".to_owned(),
            password: "testPW".to_owned(),
            baseurl: "http://localhost:8000".to_owned(),
            urlget: "/te?q=123+eq+123 AND ".to_owned(),
            urlfilter,
            entries: 10,
            filter1: "AAccount".to_owned(),
            filter2: "Update".to_owned(),
            urlput: "/users".to_owned(),
            printmode: true,
            checkmode: false,
            filemode: false,
            filelist: "list.csv".to_owned(),
        }
    }
}

impl AppConfig {
    /// The settings to go on with, given what was found where they are kept:
    /// the stored settings where a file was there and held valid ones, the
    /// default settings where no file was there and they could be written in
    /// its place, and the error of the step that failed in all other cases.
    pub fn load_or_initialize(self, stored: Stored) -> (r: Result<AppConfig, ConfigError>)
        ensures
            match stored {
                Stored::Found(loaded) => r == loaded,
                Stored::Missing(Ok(())) => r is Ok && is_default(r.unwrap()),
                Stored::Missing(Err(e)) => r == Err::<AppConfig, ConfigError>(e),
            },
    {
        match stored {
            Stored::Found(loaded) => loaded,
            Stored::Missing(Ok(())) => Ok(AppConfig::default()),
            Stored::Missing(Err(e)) => Err(e),
        }
    }

    /// Loads the settings as [`AppConfig::load_or_initialize`] does and
    /// hands its result on unchanged.
    pub fn confload(self, stored: Stored) -> (r: Result<AppConfig, ConfigError>)
        ensures
            match stored {
                Stored::Found(loaded) => r == loaded,
                Stored::Missing(Ok(())) => r is Ok && is_default(r.unwrap()),
                Stored::Missing(Err(e)) => r == Err::<AppConfig, ConfigError>(e),
            },
    {
        match self.load_or_initialize(stored) {
            Ok(v) => Ok(v),
            Err(err) => Err(err),
        }
    }
}

} // verus!
