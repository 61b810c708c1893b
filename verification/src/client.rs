//! The known client variants and the Installation Locator.

use vstd::prelude::*;
use vstd::string::StringExecFns;

verus! {

/// One installed client variant: a parallel release channel of the same chat
/// application, with its own per-user storage root and master key.
#[derive(Clone, Copy, Debug, PartialEq, Eq, Structural)]
pub enum DiscordClient {
    Stable,
    Canary,
    Ptb,
}

impl DiscordClient {
    /// The characters of the variant's storage directory name.
    pub open spec fn spec_path(&self) -> Seq<char> {
        match self {
            DiscordClient::Stable => "discord"@,
            DiscordClient::Canary => "discordcanary"@,
            DiscordClient::Ptb => "discordptb"@,
        }
    }

    /// The variant's storage directory name under the per-user
    /// application-data root.
    pub fn path(&self) -> (r: &'static str)
        ensures
            r@ == self.spec_path(),
    {
        match self {
            DiscordClient::Stable => "discord",
            DiscordClient::Canary => "discordcanary",
            DiscordClient::Ptb => "discordptb",
        }
    }

    /// The Installation Locator: derives the variant's expected storage root
    /// from the per-user application-data root. It does not check existence;
    /// an absent root is detected downstream and means "variant not
    /// installed", never an error.
    pub fn variant_root(&self, appdata_root: &str) -> (r: String)
        ensures
            r@ == appdata_root@ + "\\"@ + self.spec_path(),
    {
        let mut root = String::from_str(appdata_root);
        root.append("\\");
        root.append(self.path());
        assert(root@ =~= appdata_root@ + "\\"@ + self.spec_path());
        root
    }
}

/// The variant's state file under its root: the JSON text holding the
/// wrapped master key.
pub fn local_state_path(root: &str) -> (r: String)
    ensures
        r@ == root@ + "\\Local State"@,
{
    let mut p = String::from_str(root);
    p.append("\\Local State");
    p
}

/// The variant's log-segment storage directory under its root.
pub fn leveldb_dir(root: &str) -> (r: String)
    ensures
        r@ == root@ + "\\Local Storage\\leveldb"@,
{
    let mut p = String::from_str(root);
    p.append("\\Local Storage\\leveldb");
    p
}

/// Every known client variant: the read-only configuration of one run.
pub fn known_clients() -> (r: Vec<DiscordClient>)
    ensures
        r@.len() == 3,
        r@[0] == DiscordClient::Stable,
        r@[1] == DiscordClient::Canary,
        r@[2] == DiscordClient::Ptb,
{
    let mut v: Vec<DiscordClient> = Vec::new();
    v.push(DiscordClient::Stable);
    v.push(DiscordClient::Canary);
    v.push(DiscordClient::Ptb);
    v
}

} // verus!
