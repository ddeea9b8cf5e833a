//! The tool's configuration: the mode it runs in, the network endpoint, the
//! paths and environment variables to back up, and where it stages files.
use vstd::prelude::*;
use crate::paths::{pushed_path, push_path};
use crate::text::opt_text;
use crate::clock::is_datetime_stamp;

verus! {

/// What the tool was asked to do.
#[derive(Clone, Copy, Debug, PartialEq, Eq, Structural)]
pub enum Mode {
    /// No valid command: the usage text is printed.
    Help,
    /// Stage the configured files and variables and write a compressed archive.
    Pack,
    /// Restore the files of a compressed archive to their original paths.
    Unpack,
    /// Receive an archive over TCP.
    Listen,
    /// Send an archive over TCP.
    Connect,
}

/// An IPv4 address, by its four octets.
#[derive(Clone, Copy, Debug, PartialEq, Eq, Structural)]
pub struct Ipv4Address(pub u8, pub u8, pub u8, pub u8);

/// Where to listen or to connect to; either part may be missing.
#[derive(Clone, Copy, Debug)]
pub struct Network {
    pub ip_addr: Option<Ipv4Address>,
    pub port: Option<u32>,
}

/// What to back up: names of environment variables and paths of files or
/// directories.
#[derive(Debug)]
pub struct Backup {
    pub envvars: Vec<String>,
    pub paths: Vec<String>,
}

/// The contents of `config.toml`.
#[derive(Debug)]
pub struct TomlConfig {
    pub network: Option<Network>,
    pub backup: Backup,
}

/// The configuration one run of the tool works with.
#[derive(Debug)]
pub struct Config {
    pub mode: Mode,
    pub network: Option<Network>,
    pub file_path: Option<String>,
    pub tmp_path: String,
}

/// A `Config` with its text fields taken as character sequences.
pub struct ConfigView {
    pub mode: Mode,
    pub network: Option<Network>,
    pub file_path: Option<Seq<char>>,
    pub tmp_path: Seq<char>,
}

impl View for Config {
    type V = ConfigView;

    open spec fn view(&self) -> ConfigView {
        ConfigView {
            mode: self.mode,
            network: self.network,
            file_path: opt_text(self.file_path),
            tmp_path: self.tmp_path@,
        }
    }
}

/// The directory under which each run stages its files.
pub open spec fn tmp_root_spec() -> Seq<char> {
    seq!['/', 't', 'm', 'p', '/', 'c', 'r', 'u', 's', 't']
}

/// The directory under which each run stages its files: `/tmp/crust`.
pub fn tmp_root() -> (r: &'static str)
    ensures
        r@ == tmp_root_spec(),
{
    proof {
        reveal_strlit("/tmp/crust");
    }
    "/tmp/crust"
}

/// The staging directory of a run that started at `datetime`.
pub open spec fn tmp_path_spec(datetime: Seq<char>) -> Seq<char> {
    pushed_path(tmp_root_spec(), datetime)
}

/// The staging directory of a run that started at `datetime`:
/// `/tmp/crust/<datetime>`, built as `PathBuf::push` builds it.
pub fn tmp_path_for(datetime: &str) -> (r: String)
    ensures
        r@ == tmp_path_spec(datetime@),
{
    push_path(tmp_root(), datetime)
}

/// The staging directory of a run that starts now: `/tmp/crust/<stamp>`,
/// where the stamp is the local time as `get_datetime` writes it.
pub fn get_tmppath() -> (r: String)
    ensures
        exists|datetime: Seq<char>|
            is_datetime_stamp(datetime) && r@ == tmp_path_spec(datetime) && r@ == tmp_root_spec()
                + seq!['/'] + datetime,
{
    let datetime = crate::clock::get_datetime();
    let r = tmp_path_for(datetime.as_str());
    proof {
        crate::clock::lemma_stamp_is_relative(datetime@);
        assert(r@ =~= tmp_root_spec() + seq!['/'] + datetime@);
    }
    r
}

/// The directory that holds `config.toml`, below the home directory `home`.
pub fn config_dir_path(home: &str) -> (r: String)
    ensures
        r@ == pushed_path(home@, ".config/crust"@),
{
    push_path(home, ".config/crust")
}

/// The path of `config.toml` in the configuration directory `dir`.
pub fn config_file_path(dir: &str) -> (r: String)
    ensures
        r@ == pushed_path(dir@, "config.toml"@),
{
    push_path(dir, "config.toml")
}

/// The configuration written on the first run, when none exists yet.
pub open spec fn example_config_spec() -> Seq<char> {
    "# Example config
[network]
ip_addr = \"localhost\"
port = 5000

[backup]
envvars = [
    # \"EDITOR\",
    # \"TERM\"
]
paths = [
    # \"~/.config/nvim\",
    # \"/etc/makepkg.conf\"
]"@
}

/// The configuration written on the first run, when none exists yet.
pub fn get_example_config() -> (r: String)
    ensures
        r@ == example_config_spec(),
{
    crate::text::copy_text("# Example config
[network]
ip_addr = \"localhost\"
port = 5000

[backup]
envvars = [
    # \"EDITOR\",
    # \"TERM\"
]
paths = [
    # \"~/.config/nvim\",
    # \"/etc/makepkg.conf\"
]")
}

/// The usage text.
pub open spec fn help_spec() -> Seq<char> {
    "Usage:
  crust command [options...] [<arg>] [<file>]

Commands:
  pack                      -- packs the files/directories declared in config.toml and creates a compressed archive
  unpack                    -- unbacks the compressed archive and moves the contained files to their respective paths
  listen                    -- listens for incoming connections on specified address and port
  connect                   -- connect to the specified address and port

Options:
  --help    | -h            -- prints this message
  --address | -a <addr>     -- specifies IP-address for incoming/outgoing connection(s)
  --port    | -p <port>     -- specifies port for incoming/outgoing connection(s)

Example usage:
  crust pack
  crust unpack archive.tar.zst
  crust listen -a localhost -p 5000
  crust connect"@
}

/// The usage text, printed when no valid command was given.
pub fn help_text() -> (r: String)
    ensures
        r@ == help_spec(),
{
    crate::text::copy_text("Usage:
  crust command [options...] [<arg>] [<file>]

Commands:
  pack                      -- packs the files/directories declared in config.toml and creates a compressed archive
  unpack                    -- unbacks the compressed archive and moves the contained files to their respective paths
  listen                    -- listens for incoming connections on specified address and port
  connect                   -- connect to the specified address and port

Options:
  --help    | -h            -- prints this message
  --address | -a <addr>     -- specifies IP-address for incoming/outgoing connection(s)
  --port    | -p <port>     -- specifies port for incoming/outgoing connection(s)

Example usage:
  crust pack
  crust unpack archive.tar.zst
  crust listen -a localhost -p 5000
  crust connect")
}

} // verus!
