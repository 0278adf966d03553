use vstd::prelude::*;

verus! {

/// One running game client, as found while walking the desktop's windows.
#[derive(Debug, Clone)]
pub struct Client {
    pub pid: u32,
    /// The window handle, kept as a plain number.
    pub hwnd: u32,
    pub name: String,
    pub collect: bool,
    /// X offset of the battery confirmation button, relative to the window.
    pub offx: i32,
    /// Y offset of the battery confirmation button, relative to the window.
    pub offy: i32,
}

impl Client {
    /// A copy of this client, field for field.
    pub fn duplicate(&self) -> (r: Client)
        ensures
            r == *self,
    {
        Client {
            pid: self.pid,
            hwnd: self.hwnd,
            name: self.name.clone(),
            collect: self.collect,
            offx: self.offx,
            offy: self.offy,
        }
    }
}

/// What a run of the spammer or the collector needs: a timeout in seconds
/// and the virtual key code of the function key to press.
#[derive(Debug)]
pub struct Setup {
    pub timeout: u64,
    pub keysel: u64,
}

/// The accounts configured in `characters.toml`.
#[derive(Debug)]
pub struct Accounts {
    pub account: Vec<Account>,
}

/// One configured account: its login name, the character name to show for it,
/// and whether it runs as a collector.
#[derive(Debug)]
pub struct Account {
    pub account: String,
    pub name: String,
    pub collect: bool,
}

/// The `[base]` table of `yafb.toml`.
#[derive(Debug)]
pub struct BaseConfig {
    pub executable: String,
    pub offset: String,
}

/// The `[collector]` table of `yafb.toml`.
#[derive(Debug)]
pub struct CollectorConfig {
    pub timeout: u64,
    pub modifier: u64,
}

/// The `[kitebot]` table of `yafb.toml`.
#[derive(Debug)]
pub struct KitebotConfig {
    pub timeout: u64,
    pub keytime: u64,
}

/// The `[systembuffer]` table of `yafb.toml`.
#[derive(Debug)]
pub struct SystembufferConfig {
    pub offset: String,
}

/// The `[dungeons]` table of `yafb.toml`.
#[derive(Debug)]
pub struct DungeonsConfig {
    pub offset: String,
}

impl Default for Account {
    fn default() -> (r: Account)
        ensures
            r.name@ == "default"@,
            r.account@ == "default"@,
            !r.collect,
    {
        Account { name: "default".to_owned(), account: "default".to_owned(), collect: false }
    }
}

impl Default for Accounts {
    fn default() -> (r: Accounts)
        ensures
            r.account.len() == 1,
            r.account[0].name@ == "default"@,
            r.account[0].account@ == "default"@,
            !r.account[0].collect,
    {
        Accounts { account: vec![Account::default()] }
    }
}

impl Default for BaseConfig {
    fn default() -> (r: BaseConfig)
        ensures
            r.executable@ == "Neuz.exe"@,
            r.offset@ == "0"@,
    {
        BaseConfig { executable: "Neuz.exe".to_owned(), offset: "0".to_owned() }
    }
}

impl Default for CollectorConfig {
    fn default() -> (r: CollectorConfig)
        ensures
            r.timeout == 1800,
            r.modifier == 1,
    {
        CollectorConfig { timeout: 1800u64, modifier: 1u64 }
    }
}

impl Default for KitebotConfig {
    fn default() -> (r: KitebotConfig)
        ensures
            r.timeout == 600,
            r.keytime == 200,
    {
        KitebotConfig { timeout: 600u64, keytime: 200u64 }
    }
}

impl Default for SystembufferConfig {
    fn default() -> (r: SystembufferConfig)
        ensures
            r.offset@ == "0"@,
    {
        SystembufferConfig { offset: "0".to_owned() }
    }
}

impl Default for DungeonsConfig {
    fn default() -> (r: DungeonsConfig)
        ensures
            r.offset@ == "0"@,
    {
        DungeonsConfig { offset: "0".to_owned() }
    }
}

} // verus!
