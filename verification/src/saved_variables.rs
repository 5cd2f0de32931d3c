//! Layout of a WoW `WTF` directory, from which addon saved variables and
//! client caches are imported (read only), and the saved-variable size limit.

use vstd::prelude::*;
use crate::text::{chars_of, parse_u64, push_str, spec_parse_u64, str_eq, string_from_chars};
use crate::texture_resolve::{join_path, spec_join_path};
use crate::keyed::{get_ref, has_key, keys_distinct, keys_of, lookup, store, stored_under};

verus! {

/// Where to import saved variables from a real WoW installation.
#[derive(Debug, Clone, PartialEq, Eq)]
pub struct WtfConfig {
    pub wtf_path: String,
    pub account: String,
    pub realm: String,
    pub character: String,
}

/// `root` joined with each name in turn.
pub open spec fn join_all(root: Seq<char>, names: Seq<Seq<char>>) -> Seq<char>
    decreases names.len(),
{
    if names.len() == 0 {
        root
    } else {
        spec_join_path(join_all(root, names.drop_last()), names.last())
    }
}

fn copy_str(s: &str) -> (r: String)
    ensures
        r@ == s@,
{
    let v = chars_of(s);
    string_from_chars(v.as_slice())
}

fn join2(root: &str, a: &str, b: &str) -> (r: String)
    ensures
        r@ == join_all(root@, seq![a@, b@]),
{
    let x = join_path(root, a);
    let r = join_path(x.as_str(), b);
    assert(seq![a@, b@].drop_last() == seq![a@]);
    assert(seq![a@].drop_last() == Seq::<Seq<char>>::empty());
    assert(join_all(root@, Seq::<Seq<char>>::empty()) == root@);
    assert(seq![a@].last() == a@);
    assert(join_all(root@, seq![a@]) == spec_join_path(root@, a@));
    assert(join_all(root@, seq![a@, b@]) == spec_join_path(join_all(root@, seq![a@]), b@));
    r
}

fn join3(root: &str, a: &str, b: &str, c: &str) -> (r: String)
    ensures
        r@ == join_all(root@, seq![a@, b@, c@]),
{
    let x = join2(root, a, b);
    let r = join_path(x.as_str(), c);
    assert(seq![a@, b@, c@].drop_last() == seq![a@, b@]);
    r
}

fn join5(root: &str, a: &str, b: &str, c: &str, d: &str, e: &str) -> (r: String)
    ensures
        r@ == join_all(root@, seq![a@, b@, c@, d@, e@]),
{
    let x = join3(root, a, b, c);
    let y = join_path(x.as_str(), d);
    let r = join_path(y.as_str(), e);
    assert(seq![a@, b@, c@, d@, e@].drop_last() == seq![a@, b@, c@, d@]);
    assert(seq![a@, b@, c@, d@].drop_last() == seq![a@, b@, c@]);
    assert(join_all(root@, seq![a@, b@, c@, d@]) == spec_join_path(x@, d@));
    r
}

fn lua_file_name(addon_name: &str) -> (r: String)
    ensures
        r@ == addon_name@ + ".lua"@,
{
    let mut v = chars_of(addon_name);
    push_str(&mut v, ".lua");
    string_from_chars(v.as_slice())
}

impl WtfConfig {
    /// A configuration for one account, realm and character.
    pub fn new(wtf_path: &str, account: &str, realm: &str, character: &str) -> (r: Self)
        ensures
            r.wtf_path@ == wtf_path@,
            r.account@ == account@,
            r.realm@ == realm@,
            r.character@ == character@,
    {
        WtfConfig {
            wtf_path: copy_str(wtf_path),
            account: copy_str(account),
            realm: copy_str(realm),
            character: copy_str(character),
        }
    }

    /// `WTF/Account/<account>/SavedVariables`.
    pub fn account_saved_vars_path(&self) -> (r: String)
        ensures
            r@ == join_all(self.wtf_path@, seq!["Account"@, self.account@, "SavedVariables"@]),
    {
        join3(self.wtf_path.as_str(), "Account", self.account.as_str(), "SavedVariables")
    }

    /// `WTF/Account/<account>/<realm>/<character>/SavedVariables`.
    pub fn character_saved_vars_path(&self) -> (r: String)
        ensures
            r@ == join_all(
                self.wtf_path@,
                seq!["Account"@, self.account@, self.realm@, self.character@, "SavedVariables"@],
            ),
    {
        join5(
            self.wtf_path.as_str(),
            "Account",
            self.account.as_str(),
            self.realm.as_str(),
            self.character.as_str(),
            "SavedVariables",
        )
    }

    /// The account-wide saved variables of an addon: `<addon>.lua` in the
    /// account's `SavedVariables`.
    pub fn account_saved_vars_file(&self, addon_name: &str) -> (r: String)
        ensures
            r@ == spec_join_path(
                join_all(self.wtf_path@, seq!["Account"@, self.account@, "SavedVariables"@]),
                addon_name@ + ".lua"@,
            ),
    {
        let dir = self.account_saved_vars_path();
        let name = lua_file_name(addon_name);
        join_path(dir.as_str(), name.as_str())
    }

    /// `WTF/Account/<account>/bindings-cache.wtf`.
    pub fn account_bindings_cache_file(&self) -> (r: String)
        ensures
            r@ == join_all(self.wtf_path@, seq!["Account"@, self.account@, "bindings-cache.wtf"@]),
    {
        join3(self.wtf_path.as_str(), "Account", self.account.as_str(), "bindings-cache.wtf")
    }

    /// `WTF/Account/<account>/<realm>/<character>/click-bindings-cache.txt`.
    pub fn character_click_bindings_cache_file(&self) -> (r: String)
        ensures
            r@ == join_all(
                self.wtf_path@,
                seq![
                    "Account"@,
                    self.account@,
                    self.realm@,
                    self.character@,
                    "click-bindings-cache.txt"@,
                ],
            ),
    {
        join5(
            self.wtf_path.as_str(),
            "Account",
            self.account.as_str(),
            self.realm.as_str(),
            self.character.as_str(),
            "click-bindings-cache.txt",
        )
    }

    /// The per-character saved variables of an addon: `<addon>.lua` in the
    /// character's `SavedVariables`.
    pub fn character_saved_vars_file(&self, addon_name: &str) -> (r: String)
        ensures
            r@ == spec_join_path(
                join_all(
                    self.wtf_path@,
                    seq!["Account"@, self.account@, self.realm@, self.character@, "SavedVariables"@],
                ),
                addon_name@ + ".lua"@,
            ),
    {
        let dir = self.character_saved_vars_path();
        let name = lua_file_name(addon_name);
        join_path(dir.as_str(), name.as_str())
    }

    /// `WTF/Account/<account>/edit-mode-cache-account.txt`.
    pub fn edit_mode_account_cache_file(&self) -> (r: String)
        ensures
            r@ == join_all(
                self.wtf_path@,
                seq!["Account"@, self.account@, "edit-mode-cache-account.txt"@],
            ),
    {
        join3(
            self.wtf_path.as_str(),
            "Account",
            self.account.as_str(),
            "edit-mode-cache-account.txt",
        )
    }

    /// `WTF/Account/<account>/<realm>/<character>/edit-mode-cache-character.txt`.
    pub fn edit_mode_character_cache_file(&self) -> (r: String)
        ensures
            r@ == join_all(
                self.wtf_path@,
                seq![
                    "Account"@,
                    self.account@,
                    self.realm@,
                    self.character@,
                    "edit-mode-cache-character.txt"@,
                ],
            ),
    {
        join5(
            self.wtf_path.as_str(),
            "Account",
            self.account.as_str(),
            self.realm.as_str(),
            self.character.as_str(),
            "edit-mode-cache-character.txt",
        )
    }
}

/// The saved-variable size limit set by `WOW_SIM_MAX_SAVED_VARIABLE_BYTES`:
/// unset or `0` means no limit, otherwise the byte count it parses to (no
/// limit when it does not parse).
pub open spec fn spec_max_load_bytes(value: Option<Seq<char>>) -> Option<u64> {
    match value {
        None => None,
        Some(v) => if v == "0"@ {
            None
        } else {
            spec_parse_u64(v)
        },
    }
}

/// The saved-variable size limit for a value of
/// `WOW_SIM_MAX_SAVED_VARIABLE_BYTES`.
pub fn max_load_bytes_for(value: Option<&str>) -> (r: Option<u64>)
    ensures
        r == spec_max_load_bytes(
            match value {
                Some(v) => Some(v@),
                None => None,
            },
        ),
{
    match value {
        None => None,
        Some(v) => {
            if str_eq(v, "0") {
                None
            } else {
                parse_u64(v)
            }
        },
    }
}

/// Whether a saved-variables file of `file_len` bytes is skipped rather than
/// loaded: only when a limit is set and the file exceeds it.
pub fn should_skip_load(max_load_bytes: Option<u64>, file_len: u64) -> (r: bool)
    ensures
        r == match max_load_bytes {
            Some(m) => file_len > m,
            None => false,
        },
{
    match max_load_bytes {
        Some(m) => file_len > m,
        None => false,
    }
}



/// The size limit reads back a byte count written in decimal: any count
/// from 1 on is the limit, and `0` means none.
pub proof fn lemma_size_limit_reads_decimal(n: u64)
    ensures
        n >= 1 ==> spec_max_load_bytes(Some(crate::text::decimal(n as nat))) == Some(n),
        spec_max_load_bytes(Some(crate::text::decimal(0))) is None,
{
    reveal_strlit("0");
    crate::text::lemma_parse_reads_back_decimal(n, 0);
    crate::text::lemma_decimal_digits(n as nat);
    let z = "0"@;
    assert(z.drop_last() == Seq::<char>::empty());
    assert(z.last() == '0');
    assert(crate::text::digits_value(z.drop_last()) == 0);
    assert(crate::text::digits_value(z) == crate::text::digits_value(z.drop_last()) * 10 + ((
    z.last() as u32 - '0' as u32) as nat));
    assert(crate::text::digits_value(z) == 0);
    assert(crate::text::decimal(0) == z);
}

/// Copies each string of a slice.
fn copy_strings(s: &[String]) -> (r: Vec<String>)
    ensures
        r@ == s@,
{
    let mut out: Vec<String> = Vec::new();
    let mut i: usize = 0;
    while i < s.len()
        invariant
            i <= s@.len(),
            out@ == s@.subrange(0, i as int),
        decreases s@.len() - i,
    {
        out.push(s[i].clone());
        assert(s@.subrange(0, i + 1) == s@.subrange(0, i as int).push(s@[i as int]));
        i = i + 1;
    }
    assert(s@.subrange(0, s@.len() as int) == s@);
    out
}

/// Saved variables of the loaded addons: where the simulator stores them,
/// which globals each addon registered, which WTF imports were made, and the
/// size limit above which a file is not loaded. (The values themselves live
/// in the Lua state.)
#[derive(Debug)]
pub struct SavedVariablesManager {
    pub storage_dir: String,
    pub character_name: String,
    pub realm_name: String,
    /// Account-wide saved variables, by addon.
    pub registered: Vec<(String, Vec<String>)>,
    /// Per-character saved variables, by addon.
    pub registered_per_char: Vec<(String, Vec<String>)>,
    pub wtf_config: Option<WtfConfig>,
    /// Addons whose WTF import was attempted, and whether a file loaded.
    pub wtf_loaded: Vec<(String, bool)>,
    pub max_load_bytes: Option<u64>,
}

/// The storage directory under a local data directory (`.` when there is
/// none): `<dir>/wow-sim/SavedVariables`.
pub open spec fn spec_default_storage_dir(data_local_dir: Option<Seq<char>>) -> Seq<char> {
    join_all(
        match data_local_dir {
            Some(d) => d,
            None => "."@,
        },
        seq!["wow-sim"@, "SavedVariables"@],
    )
}

impl SavedVariablesManager {
    /// Each addon appears at most once in each table.
    pub open spec fn wf(&self) -> bool {
        &&& keys_distinct(self.registered@)
        &&& keys_distinct(self.registered_per_char@)
        &&& keys_distinct(self.wtf_loaded@)
    }

    /// A manager storing under `storage_dir` for `SimPlayer` of `SimRealm`,
    /// with nothing registered, no WTF configuration, and the size limit
    /// that `WOW_SIM_MAX_SAVED_VARIABLE_BYTES` (given as `max_bytes_setting`)
    /// sets.
    pub fn with_storage_dir(storage_dir: &str, max_bytes_setting: Option<&str>) -> (r: Self)
        ensures
            r.wf(),
            r.storage_dir@ == storage_dir@,
            r.character_name@ == "SimPlayer"@,
            r.realm_name@ == "SimRealm"@,
            r.registered@.len() == 0,
            r.registered_per_char@.len() == 0,
            r.wtf_config is None,
            r.wtf_loaded@.len() == 0,
            r.max_load_bytes == spec_max_load_bytes(
                match max_bytes_setting {
                    Some(v) => Some(v@),
                    None => None,
                },
            ),
    {
        SavedVariablesManager {
            storage_dir: copy_str(storage_dir),
            character_name: copy_str("SimPlayer"),
            realm_name: copy_str("SimRealm"),
            registered: Vec::new(),
            registered_per_char: Vec::new(),
            wtf_config: None,
            wtf_loaded: Vec::new(),
            max_load_bytes: max_load_bytes_for(max_bytes_setting),
        }
    }

    /// A manager storing under `<data_local_dir>/wow-sim/SavedVariables`
    /// (`./wow-sim/SavedVariables` without a local data directory), as
    /// `with_storage_dir` otherwise.
    pub fn new(data_local_dir: Option<&str>, max_bytes_setting: Option<&str>) -> (r: Self)
        ensures
            r.wf(),
            r.storage_dir@ == spec_default_storage_dir(
                match data_local_dir {
                    Some(d) => Some(d@),
                    None => None,
                },
            ),
            r.character_name@ == "SimPlayer"@,
            r.realm_name@ == "SimRealm"@,
            r.registered@.len() == 0,
            r.registered_per_char@.len() == 0,
            r.wtf_config is None,
            r.wtf_loaded@.len() == 0,
            r.max_load_bytes == spec_max_load_bytes(
                match max_bytes_setting {
                    Some(v) => Some(v@),
                    None => None,
                },
            ),
    {
        let root = match data_local_dir {
            Some(d) => d,
            None => ".",
        };
        let dir = join2(root, "wow-sim", "SavedVariables");
        Self::with_storage_dir(dir.as_str(), max_bytes_setting)
    }

    /// Sets the character and realm whose per-character variables are used.
    pub fn set_character(&mut self, name: &str, realm: &str)
        ensures
            final(self).character_name@ == name@,
            final(self).realm_name@ == realm@,
            final(self).storage_dir == old(self).storage_dir,
            final(self).registered == old(self).registered,
            final(self).registered_per_char == old(self).registered_per_char,
            final(self).wtf_config == old(self).wtf_config,
            final(self).wtf_loaded == old(self).wtf_loaded,
            final(self).max_load_bytes == old(self).max_load_bytes,
    {
        self.character_name = copy_str(name);
        self.realm_name = copy_str(realm);
    }

    /// Imports from `config` from now on, as its character and realm.
    pub fn set_wtf_config(&mut self, config: WtfConfig)
        ensures
            final(self).character_name@ == config.character@,
            final(self).realm_name@ == config.realm@,
            final(self).wtf_config == Some(config),
            final(self).storage_dir == old(self).storage_dir,
            final(self).registered == old(self).registered,
            final(self).registered_per_char == old(self).registered_per_char,
            final(self).wtf_loaded == old(self).wtf_loaded,
            final(self).max_load_bytes == old(self).max_load_bytes,
    {
        self.character_name = config.character.clone();
        self.realm_name = config.realm.clone();
        self.wtf_config = Some(config);
    }

    /// The WTF configuration, if one was set.
    pub fn wtf_config(&self) -> (r: Option<&WtfConfig>)
        ensures
            match self.wtf_config {
                Some(c) => r matches Some(rc) && *rc == c,
                None => r is None,
            },
    {
        match &self.wtf_config {
            Some(c) => Some(c),
            None => None,
        }
    }

    /// Sets the size limit above which saved-variable files are not loaded.
    pub fn set_max_load_bytes(&mut self, max_load_bytes: Option<u64>)
        ensures
            final(self).max_load_bytes == max_load_bytes,
            final(self).storage_dir == old(self).storage_dir,
            final(self).character_name == old(self).character_name,
            final(self).realm_name == old(self).realm_name,
            final(self).registered == old(self).registered,
            final(self).registered_per_char == old(self).registered_per_char,
            final(self).wtf_config == old(self).wtf_config,
            final(self).wtf_loaded == old(self).wtf_loaded,
    {
        self.max_load_bytes = max_load_bytes;
    }

    /// Whether a saved-variables file of `file_len` bytes is skipped.
    pub fn should_skip_load(&self, file_len: u64) -> (r: bool)
        ensures
            r == match self.max_load_bytes {
                Some(m) => file_len > m,
                None => false,
            },
    {
        should_skip_load(self.max_load_bytes, file_len)
    }

    /// Records the saved variables an addon declares (what `init_for_addon`
    /// remembers once the globals are set up): a non-empty list replaces
    /// the addon's earlier one, an empty list changes nothing.
    pub fn remember_registered_vars(
        &mut self,
        addon_name: &str,
        saved_vars: &[String],
        saved_vars_per_char: &[String],
    )
        requires
            old(self).wf(),
        ensures
            final(self).wf(),
            if saved_vars@.len() > 0 {
                exists|v: Vec<String>|
                    v@ == saved_vars@ && stored_under(
                        final(self).registered@,
                        old(self).registered@,
                        addon_name@,
                        v,
                    )
            } else {
                final(self).registered == old(self).registered
            },
            if saved_vars_per_char@.len() > 0 {
                exists|v: Vec<String>|
                    v@ == saved_vars_per_char@ && stored_under(
                        final(self).registered_per_char@,
                        old(self).registered_per_char@,
                        addon_name@,
                        v,
                    )
            } else {
                final(self).registered_per_char == old(self).registered_per_char
            },
            final(self).storage_dir == old(self).storage_dir,
            final(self).character_name == old(self).character_name,
            final(self).realm_name == old(self).realm_name,
            final(self).wtf_config == old(self).wtf_config,
            final(self).wtf_loaded == old(self).wtf_loaded,
            final(self).max_load_bytes == old(self).max_load_bytes,
    {
        if saved_vars.len() > 0 {
            let v = copy_strings(saved_vars);
            let ghost gv = v;
            store(&mut self.registered, copy_str(addon_name), v);
            assert(gv@ == saved_vars@ && stored_under(self.registered@, old(self).registered@, addon_name@, gv));
        }
        let ghost mid = self.registered;
        if saved_vars_per_char.len() > 0 {
            let v = copy_strings(saved_vars_per_char);
            let ghost gv = v;
            store(&mut self.registered_per_char, copy_str(addon_name), v);
            assert(gv@ == saved_vars_per_char@ && stored_under(
                self.registered_per_char@,
                old(self).registered_per_char@,
                addon_name@,
                gv,
            ));
        }
        assert(self.registered == mid);
    }

    /// The addons with registered saved variables: the account-wide ones,
    /// then the per-character ones (an addon with both appears twice).
    pub fn registered_addons(&self) -> (r: Vec<&String>)
        ensures
            r@.len() == self.registered@.len() + self.registered_per_char@.len(),
            forall|i: int| 0 <= i < self.registered@.len() ==> *#[trigger] r@[i] == self.registered@[i].0,
            forall|i: int|
                0 <= i < self.registered_per_char@.len() ==> *#[trigger] r@[self.registered@.len()
                    + i] == self.registered_per_char@[i].0,
    {
        let mut out: Vec<&String> = Vec::new();
        let mut i: usize = 0;
        while i < self.registered.len()
            invariant
                i <= self.registered@.len(),
                out@.len() == i,
                forall|k: int| 0 <= k < i ==> *#[trigger] out@[k] == self.registered@[k].0,
            decreases self.registered@.len() - i,
        {
            out.push(&self.registered[i].0);
            i = i + 1;
        }
        let n = self.registered.len();
        let mut j: usize = 0;
        while j < self.registered_per_char.len()
            invariant
                n == self.registered@.len(),
                j <= self.registered_per_char@.len(),
                out@.len() == n + j,
                forall|k: int| 0 <= k < n ==> *#[trigger] out@[k] == self.registered@[k].0,
                forall|k: int| 0 <= k < j ==> *#[trigger] out@[n + k] == self.registered_per_char@[k].0,
            decreases self.registered_per_char@.len() - j,
        {
            out.push(&self.registered_per_char[j].0);
            j = j + 1;
        }
        out
    }

    /// The saved variables an addon registered, account-wide or per character.
    pub fn registered_vars_for(&self, addon_name: &str, per_character: bool) -> (r: Option<&Vec<String>>)
        ensures
            match lookup(
                if per_character {
                    self.registered_per_char@
                } else {
                    self.registered@
                },
                addon_name@,
            ) {
                Some(v) => r matches Some(rv) && *rv == v,
                None => r is None,
            },
    {
        if per_character {
            get_ref(&self.registered_per_char, addon_name)
        } else {
            get_ref(&self.registered, addon_name)
        }
    }

    /// Where the simulator stores an addon's saved variables: `<addon>.lua`
    /// in the storage directory, or, per character, under
    /// `<realm>/<character>` there.
    pub fn storage_path(&self, addon_name: &str, per_character: bool) -> (r: String)
        ensures
            r@ == if per_character {
                spec_join_path(
                    join_all(self.storage_dir@, seq![self.realm_name@, self.character_name@]),
                    addon_name@ + ".lua"@,
                )
            } else {
                spec_join_path(self.storage_dir@, addon_name@ + ".lua"@)
            },
    {
        let name = lua_file_name(addon_name);
        if per_character {
            let dir = join2(self.storage_dir.as_str(), self.realm_name.as_str(), self.character_name.as_str());
            join_path(dir.as_str(), name.as_str())
        } else {
            join_path(self.storage_dir.as_str(), name.as_str())
        }
    }

    /// The WTF files to import for an addon, account-wide file first: none
    /// without a WTF configuration or once the addon's import was made.
    pub fn wtf_files_for_addon(&self, addon_name: &str) -> (r: Vec<String>)
        ensures
            match self.wtf_config {
                None => r@.len() == 0,
                Some(c) => if has_key(self.wtf_loaded@, addon_name@) {
                    r@.len() == 0
                } else {
                    r@.len() == 2 && r@[0]@ == spec_join_path(
                        join_all(c.wtf_path@, seq!["Account"@, c.account@, "SavedVariables"@]),
                        addon_name@ + ".lua"@,
                    ) && r@[1]@ == spec_join_path(
                        join_all(
                            c.wtf_path@,
                            seq!["Account"@, c.account@, c.realm@, c.character@, "SavedVariables"@],
                        ),
                        addon_name@ + ".lua"@,
                    )
                },
            },
    {
        let mut out: Vec<String> = Vec::new();
        match &self.wtf_config {
            None => out,
            Some(c) => {
                if get_ref(&self.wtf_loaded, addon_name).is_some() {
                    return out;
                }
                out.push(c.account_saved_vars_file(addon_name));
                out.push(c.character_saved_vars_file(addon_name));
                out
            },
        }
    }

    /// Imports an addon's WTF saved variables once: `try_load` is asked for
    /// each file `wtf_files_for_addon` names (account-wide first) and says
    /// whether it existed and loaded. Returns the number of files loaded:
    /// at most two, and 0 with nothing asked or changed when there is no WTF
    /// configuration or the addon's import was already made.
    pub fn load_wtf_for_addon(&mut self, addon_name: &str, try_load: impl Fn(&str) -> bool) -> (r: usize)
        requires
            old(self).wf(),
            forall|p: &str| try_load.requires((p,)),
        ensures
            final(self).wf(),
            r <= 2,
            match old(self).wtf_config {
                None => r == 0 && final(self).wtf_loaded == old(self).wtf_loaded,
                Some(c) => if has_key(old(self).wtf_loaded@, addon_name@) {
                    r == 0 && final(self).wtf_loaded == old(self).wtf_loaded
                } else {
                    (exists|p0: &str, p1: &str, l0: bool, l1: bool|
                        p0@ == spec_join_path(
                            join_all(c.wtf_path@, seq!["Account"@, c.account@, "SavedVariables"@]),
                            addon_name@ + ".lua"@,
                        ) && p1@ == spec_join_path(
                            join_all(
                                c.wtf_path@,
                                seq!["Account"@, c.account@, c.realm@, c.character@, "SavedVariables"@],
                            ),
                            addon_name@ + ".lua"@,
                        ) && call_ensures(try_load, (p0,), l0) && call_ensures(try_load, (p1,), l1)
                            && r == (if l0 { 1int } else { 0int }) + (if l1 { 1int } else { 0int }))
                        && stored_under(final(self).wtf_loaded@, old(self).wtf_loaded@, addon_name@, r > 0)
                },
            },
            final(self).storage_dir == old(self).storage_dir,
            final(self).character_name == old(self).character_name,
            final(self).realm_name == old(self).realm_name,
            final(self).registered == old(self).registered,
            final(self).registered_per_char == old(self).registered_per_char,
            final(self).wtf_config == old(self).wtf_config,
            final(self).max_load_bytes == old(self).max_load_bytes,
    {
        let files = self.wtf_files_for_addon(addon_name);
        if files.len() == 0 {
            return 0;
        }
        let l0 = try_load(files[0].as_str());
        let l1 = try_load(files[1].as_str());
        let mut flags: Vec<bool> = Vec::new();
        flags.push(l0);
        flags.push(l1);
        proof {
            assert(flags@ == seq![l0, l1]);
            assert(flags@.drop_last() == seq![l0]);
            assert(seq![l0].drop_last() == Seq::<bool>::empty());
            assert(count_loaded(Seq::<bool>::empty()) == 0);
            assert(count_loaded(seq![l0]) == (if l0 { 1nat } else { 0nat }));
            assert(count_loaded(flags@) == count_loaded(seq![l0]) + (if l1 { 1nat } else { 0nat }));
        }
        let r = self.record_wtf_load(addon_name, flags.as_slice());
        assert(r == (if l0 { 1int } else { 0int }) + (if l1 { 1int } else { 0int }));
        r
    }

    /// Records the WTF import of an addon: `loaded` says, for each file
    /// `wtf_files_for_addon` named (in that order), whether it existed and
    /// loaded. Returns the number of files loaded; the addon counts as
    /// imported from now on, with a file loaded or not.
    pub fn record_wtf_load(&mut self, addon_name: &str, loaded: &[bool]) -> (r: usize)
        requires
            old(self).wf(),
        ensures
            r == count_loaded(loaded@),
            r <= loaded@.len(),
            final(self).wf(),
            stored_under(final(self).wtf_loaded@, old(self).wtf_loaded@, addon_name@, r > 0),
            final(self).storage_dir == old(self).storage_dir,
            final(self).character_name == old(self).character_name,
            final(self).realm_name == old(self).realm_name,
            final(self).registered == old(self).registered,
            final(self).registered_per_char == old(self).registered_per_char,
            final(self).wtf_config == old(self).wtf_config,
            final(self).max_load_bytes == old(self).max_load_bytes,
    {
        let mut count: usize = 0;
        let mut i: usize = 0;
        while i < loaded.len()
            invariant
                i <= loaded@.len(),
                count == count_loaded(loaded@.subrange(0, i as int)),
                count <= i,
            decreases loaded@.len() - i,
        {
            assert(loaded@.subrange(0, i + 1).drop_last() == loaded@.subrange(0, i as int));
            if loaded[i] {
                count = count + 1;
            }
            i = i + 1;
        }
        assert(loaded@.subrange(0, loaded@.len() as int) == loaded@);
        store(&mut self.wtf_loaded, copy_str(addon_name), count > 0);
        count
    }
}

/// How many of the files loaded.
pub open spec fn count_loaded(loaded: Seq<bool>) -> nat
    decreases loaded.len(),
{
    if loaded.len() == 0 {
        0
    } else {
        count_loaded(loaded.drop_last()) + if loaded.last() {
            1nat
        } else {
            0nat
        }
    }
}

/// An addon's WTF import loads at most its two files (account-wide and
/// per character), none without a WTF configuration or once imported.
pub proof fn lemma_wtf_import_loads_at_most_two(files: Seq<Seq<char>>, loaded: Seq<bool>)
    requires
        files.len() == 0 || files.len() == 2,
        loaded.len() == files.len(),
    ensures
        count_loaded(loaded) <= 2,
        files.len() == 0 ==> count_loaded(loaded) == 0,
    decreases loaded.len(),
{
    lemma_count_loaded_bounded(loaded);
}

proof fn lemma_count_loaded_bounded(loaded: Seq<bool>)
    ensures
        count_loaded(loaded) <= loaded.len(),
    decreases loaded.len(),
{
    if loaded.len() > 0 {
        lemma_count_loaded_bounded(loaded.drop_last());
    }
}

/// Once an addon's WTF import is recorded (`record_wtf_load`), the addon
/// counts as imported, so `wtf_files_for_addon` names no file for it again.
pub proof fn lemma_wtf_import_happens_once(
    before: SavedVariablesManager,
    after: SavedVariablesManager,
    addon_name: Seq<char>,
    loaded: bool,
)
    requires
        stored_under(after.wtf_loaded@, before.wtf_loaded@, addon_name, loaded),
    ensures
        has_key(after.wtf_loaded@, addon_name),
{
}

} // verus!
