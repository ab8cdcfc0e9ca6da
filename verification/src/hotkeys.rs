//! Global hotkeys: parsing key combinations such as `Ctrl+Shift+F`, and the
//! registry of the hotkeys in force.

use vstd::prelude::*;
use crate::html::trim;
use crate::text::{chars_of, copy_string, lowercase, str_eq, string_from_chars, to_lowercase};

verus! {

/// A modifier key.
#[derive(Clone, Copy, Debug, PartialEq, Eq, Structural)]
pub enum KeyModifier {
    Ctrl,
    Alt,
    Shift,
    /// The Windows key, Command on macOS, Super on Linux.
    Meta,
}

/// A key combination: its modifiers, in order, and its key.
#[derive(Clone, Debug)]
pub struct ParsedKeyCombination {
    pub modifiers: Vec<KeyModifier>,
    pub key: String,
}

/// Why a key combination or registration was refused.
#[derive(Clone, Debug, PartialEq, Eq)]
pub enum HotkeyError {
    /// The hotkey manager was not initialized.
    NotInitialized,
    /// More than one key that is not a modifier.
    MultipleKeys { combination: String },
    /// Only modifiers.
    NoKey { combination: String },
}

impl HotkeyError {
    /// The error's text.
    pub fn message(&self) -> (r: String)
        ensures
            match self {
                HotkeyError::NotInitialized => r@ == "UI is not initialized"@,
                HotkeyError::MultipleKeys { combination } => r@ == "Multiple keys in combination: "@
                    + combination@,
                HotkeyError::NoKey { combination } => r@ == "No key specified in combination: "@
                    + combination@,
            },
    {
        let mut v: Vec<char> = Vec::new();
        match self {
            HotkeyError::NotInitialized => {
                crate::matcher::push_str_chars(&mut v, "UI is not initialized");
            },
            HotkeyError::MultipleKeys { combination } => {
                crate::matcher::push_str_chars(&mut v, "Multiple keys in combination: ");
                crate::matcher::push_str_chars(&mut v, combination);
            },
            HotkeyError::NoKey { combination } => {
                crate::matcher::push_str_chars(&mut v, "No key specified in combination: ");
                crate::matcher::push_str_chars(&mut v, combination);
            },
        }
        string_from_chars(&v)
    }
}

/// The modifier that a part names, ignoring case.
pub open spec fn modifier_of(part: Seq<char>) -> Option<KeyModifier> {
    let l = lowercase(part);
    if l == "ctrl"@ || l == "control"@ {
        Some(KeyModifier::Ctrl)
    } else if l == "alt"@ {
        Some(KeyModifier::Alt)
    } else if l == "shift"@ {
        Some(KeyModifier::Shift)
    } else if l == "meta"@ || l == "win"@ || l == "cmd"@ || l == "super"@ {
        Some(KeyModifier::Meta)
    } else {
        None
    }
}

/// The parse of the first `k` parts: the modifiers so far and the key, or
/// failure where a second key appears (`Err(true)`).
pub open spec fn parse_parts(parts: Seq<Seq<char>>, k: nat) -> Result<(Seq<KeyModifier>, Option<Seq<char>>), bool>
    decreases k,
{
    if k == 0 {
        Ok((seq![], None))
    } else {
        match parse_parts(parts, (k - 1) as nat) {
            Err(e) => Err(e),
            Ok((mods, key)) => match modifier_of(parts[k - 1]) {
                Some(m) => Ok((mods.push(m), key)),
                None => if key is Some {
                    Err(true)
                } else {
                    Ok((mods, Some(parts[k - 1])))
                },
            },
        }
    }
}

/// Once the parse of a prefix fails, the parse of every longer prefix
/// fails the same way.
proof fn lemma_parse_failure_persists(parts: Seq<Seq<char>>, k: nat, n: nat)
    requires
        k <= n,
        parse_parts(parts, k) is Err,
    ensures
        parse_parts(parts, n) == parse_parts(parts, k),
    decreases n - k,
{
    if k < n {
        lemma_parse_failure_persists(parts, k, (n - 1) as nat);
    }
}

/// A key combination parsed: its parts between `+`, trimmed, are modifiers
/// (`ctrl`/`control`, `alt`, `shift`, `meta`/`win`/`cmd`/`super`, ignoring
/// case) and exactly one key. `Err(true)` for a second key, `Err(false)`
/// for none.
pub open spec fn parsed_combination(c: Seq<char>) -> Result<(Seq<KeyModifier>, Seq<char>), bool> {
    let parts = crate::content_archiver::split_on(c, '+').map_values(|p: Seq<char>| trim(p));
    match parse_parts(parts, parts.len()) {
        Err(e) => Err(e),
        Ok((mods, key)) => match key {
            Some(k) => Ok((mods, k)),
            None => Err(false),
        },
    }
}

/// The modifier that a part names.
fn modifier_exec(part: &str) -> (r: Option<KeyModifier>)
    ensures
        r == modifier_of(part@),
{
    let l = to_lowercase(part);
    if str_eq(&l, "ctrl") || str_eq(&l, "control") {
        Some(KeyModifier::Ctrl)
    } else if str_eq(&l, "alt") {
        Some(KeyModifier::Alt)
    } else if str_eq(&l, "shift") {
        Some(KeyModifier::Shift)
    } else if str_eq(&l, "meta") || str_eq(&l, "win") || str_eq(&l, "cmd") || str_eq(&l, "super") {
        Some(KeyModifier::Meta)
    } else {
        None
    }
}

/// The error that parsing `c` gives, where it fails: several keys, or none,
/// with the combination.
pub open spec fn parse_error(c: Seq<char>, e: HotkeyError) -> bool {
    match parsed_combination(c) {
        Err(true) => e matches HotkeyError::MultipleKeys { combination: x } && x@ == c,
        Err(false) => e matches HotkeyError::NoKey { combination: x } && x@ == c,
        Ok(_) => false,
    }
}

/// Parses a key combination.
pub fn parse_key_combination(combination: &str) -> (r: Result<ParsedKeyCombination, HotkeyError>)
    ensures
        match parsed_combination(combination@) {
            Ok((mods, key)) => r matches Ok(p) && p.modifiers@ == mods && p.key@ == key,
            Err(true) => r matches Err(HotkeyError::MultipleKeys { combination: c }) && c@
                == combination@,
            Err(false) => r matches Err(HotkeyError::NoKey { combination: c }) && c@
                == combination@,
        },
{
    let cs = chars_of(combination);
    let raw = crate::content_archiver::split_on_chars(&cs, '+');
    let ghost parts = crate::content_archiver::split_on(combination@, '+').map_values(
        |p: Seq<char>| trim(p),
    );
    let mut modifiers: Vec<KeyModifier> = Vec::new();
    let mut key: Option<String> = None;
    let mut i: usize = 0;
    while i < raw.len()
        invariant
            i <= raw@.len(),
            cs@ == combination@,
            crate::change_detector::char_vecs(raw@) == crate::content_archiver::split_on(combination@, '+'),
            parts == crate::content_archiver::split_on(combination@, '+').map_values(
                |p: Seq<char>| trim(p),
            ),
            parts.len() == raw@.len(),
            parse_parts(parts, i as nat) == Ok::<(Seq<KeyModifier>, Option<Seq<char>>), bool>(
                (
                    modifiers@,
                    match key {
                        Some(k) => Some(k@),
                        None => None,
                    },
                ),
            ),
        decreases raw@.len() - i,
    {
        let n = raw[i].len();
        assert(raw@[i as int]@.subrange(0, n as int) == raw@[i as int]@);
        let part = string_from_chars(&crate::html::trimmed_range(&raw[i], 0, n));
        assert(parts[i as int] == trim(raw@[i as int]@)) by {
            assert(crate::change_detector::char_vecs(raw@)[i as int] == raw@[i as int]@);
        }
        match modifier_exec(&part) {
            Some(m) => {
                modifiers.push(m);
            },
            None => {
                if key.is_some() {
                    proof {
                        lemma_parse_failure_persists(parts, (i + 1) as nat, parts.len());
                    }
                    return Err(HotkeyError::MultipleKeys { combination: string_from_chars(&cs) });
                }
                key = Some(part);
            },
        }
        i += 1;
    }
    match key {
        Some(k) => Ok(ParsedKeyCombination { modifiers, key: k }),
        None => Err(HotkeyError::NoKey { combination: string_from_chars(&cs) }),
    }
}

/// A global hotkey: an id, its key combination, the action it triggers and
/// a description.
#[derive(Clone, Debug)]
pub struct Hotkey {
    pub id: String,
    pub key_combination: String,
    pub action: String,
    pub description: String,
}

/// A hotkey as registered.
#[derive(Clone, Debug)]
pub struct HotkeyRegistration {
    pub id: String,
    pub key_combination: String,
    pub action: String,
    pub description: String,
    pub is_active: bool,
    /// The platform's id of the registration, where it gives one.
    pub platform_id: Option<u32>,
}

/// The mathematical value of a [`HotkeyRegistration`].
pub ghost struct RegistrationModel {
    pub id: Seq<char>,
    pub key_combination: Seq<char>,
    pub action: Seq<char>,
    pub description: Seq<char>,
    pub is_active: bool,
    pub platform_id: Option<u32>,
}

impl View for HotkeyRegistration {
    type V = RegistrationModel;

    open spec fn view(&self) -> RegistrationModel {
        RegistrationModel {
            id: self.id@,
            key_combination: self.key_combination@,
            action: self.action@,
            description: self.description@,
            is_active: self.is_active,
            platform_id: self.platform_id,
        }
    }
}

impl HotkeyRegistration {
    /// The registration of a hotkey, not yet active.
    pub fn from_hotkey(hotkey: &Hotkey) -> (r: Self)
        ensures
            r@ == (RegistrationModel {
                id: hotkey.id@,
                key_combination: hotkey.key_combination@,
                action: hotkey.action@,
                description: hotkey.description@,
                is_active: false,
                platform_id: None,
            }),
    {
        HotkeyRegistration {
            id: copy_string(&hotkey.id),
            key_combination: copy_string(&hotkey.key_combination),
            action: copy_string(&hotkey.action),
            description: copy_string(&hotkey.description),
            is_active: false,
            platform_id: None,
        }
    }

    /// A copy of this registration.
    pub fn duplicate(&self) -> (r: Self)
        ensures
            r@ == self@,
    {
        HotkeyRegistration {
            id: copy_string(&self.id),
            key_combination: copy_string(&self.key_combination),
            action: copy_string(&self.action),
            description: copy_string(&self.description),
            is_active: self.is_active,
            platform_id: self.platform_id,
        }
    }
}

/// The views of registrations.
pub open spec fn registrations_view(v: Seq<HotkeyRegistration>) -> Seq<RegistrationModel> {
    v.map_values(|r: HotkeyRegistration| r@)
}

/// Whether `k` is the first index of a registration with an id.
pub open spec fn first_with_id(v: Seq<RegistrationModel>, id: Seq<char>, k: int) -> bool {
    0 <= k < v.len() && v[k].id == id && forall|j: int| 0 <= j < k ==> (#[trigger] v[j]).id != id
}

/// The registrations once `r` is added: the first one with the same id is
/// replaced, else `r` comes last.
pub open spec fn registered(v: Seq<RegistrationModel>, r: RegistrationModel) -> Seq<RegistrationModel> {
    if exists|k: int| #[trigger] first_with_id(v, r.id, k) {
        v.update(choose|k: int| #[trigger] first_with_id(v, r.id, k), r)
    } else {
        v.push(r)
    }
}

/// The registrations without those with an id.
pub open spec fn without_hotkey(v: Seq<RegistrationModel>, id: Seq<char>) -> Seq<RegistrationModel> {
    v.filter(|x: RegistrationModel| x.id != id)
}

/// A hotkey's id, key combination, action and description.
pub open spec fn hotkey_model(h: Hotkey) -> (Seq<char>, Seq<char>, Seq<char>, Seq<char>) {
    (h.id@, h.key_combination@, h.action@, h.description@)
}

/// The application's default hotkeys: quick search on Ctrl+Shift+F, the main
/// window on Ctrl+Shift+W and a new browser tab on Ctrl+Shift+T.
pub open spec fn default_hotkey_models() -> Seq<(Seq<char>, Seq<char>, Seq<char>, Seq<char>)> {
    seq![
        ("quick_search"@, "Ctrl+Shift+F"@, "quick_search"@, "打开快速搜索"@),
        ("show_window"@, "Ctrl+Shift+W"@, "show_window"@, "显示主窗口"@),
        ("new_tab"@, "Ctrl+Shift+T"@, "new_tab"@, "在默认浏览器中打开新标签页"@),
    ]
}

/// The active registration of a hotkey with a platform id.
pub open spec fn active_registration(
    h: (Seq<char>, Seq<char>, Seq<char>, Seq<char>),
    platform_id: Option<u32>,
) -> RegistrationModel {
    RegistrationModel {
        id: h.0,
        key_combination: h.1,
        action: h.2,
        description: h.3,
        is_active: true,
        platform_id,
    }
}

/// The registrations once the first `k` default hotkeys are registered in
/// turn, and whether all of them were; registration stops at the first
/// whose key combination does not parse.
pub open spec fn defaults_registered(v: Seq<RegistrationModel>, platform_id: Option<u32>, k: nat) -> (
    Seq<RegistrationModel>,
    bool,
)
    decreases k,
{
    if k == 0 {
        (v, true)
    } else {
        let (w, ok) = defaults_registered(v, platform_id, (k - 1) as nat);
        let d = default_hotkey_models()[k - 1];
        if !ok {
            (w, false)
        } else if parsed_combination(d.1) is Ok {
            (registered(w, active_registration(d, platform_id)), true)
        } else {
            (w, false)
        }
    }
}

/// Once a default hotkey is refused, the registrations stay as they are.
proof fn lemma_defaults_failure_persists(v: Seq<RegistrationModel>, platform_id: Option<u32>, k: nat, n: nat)
    requires
        k <= n,
        !defaults_registered(v, platform_id, k).1,
    ensures
        defaults_registered(v, platform_id, n) == defaults_registered(v, platform_id, k),
    decreases n - k,
{
    if k < n {
        lemma_defaults_failure_persists(v, platform_id, k, (n - 1) as nat);
    }
}

/// The application's default hotkeys.
pub fn default_hotkeys() -> (r: Vec<Hotkey>)
    ensures
        r@.len() == 3,
        forall|k: int| 0 <= k < 3 ==> #[trigger] hotkey_model(r@[k]) == default_hotkey_models()[k],
{
    let mut r: Vec<Hotkey> = Vec::new();
    r.push(
        Hotkey {
            id: "quick_search".to_string(),
            key_combination: "Ctrl+Shift+F".to_string(),
            action: "quick_search".to_string(),
            description: "打开快速搜索".to_string(),
        },
    );
    r.push(
        Hotkey {
            id: "show_window".to_string(),
            key_combination: "Ctrl+Shift+W".to_string(),
            action: "show_window".to_string(),
            description: "显示主窗口".to_string(),
        },
    );
    r.push(
        Hotkey {
            id: "new_tab".to_string(),
            key_combination: "Ctrl+Shift+T".to_string(),
            action: "new_tab".to_string(),
            description: "在默认浏览器中打开新标签页".to_string(),
        },
    );
    assert forall|k: int| 0 <= k < 3 implies #[trigger] hotkey_model(r@[k]) == default_hotkey_models()[k] by {}
    r
}

/// Whether each id occurs at most once.
pub open spec fn ids_distinct(v: Seq<RegistrationModel>) -> bool {
    forall|i: int, j: int| 0 <= i < j < v.len() ==> (#[trigger] v[i]).id != (#[trigger] v[j]).id
}

/// The hotkeys in force.
pub struct CrossPlatformHotkeyManager {
    registrations: Vec<HotkeyRegistration>,
    initialized: bool,
}

impl View for CrossPlatformHotkeyManager {
    type V = (Seq<RegistrationModel>, bool);

    closed spec fn view(&self) -> (Seq<RegistrationModel>, bool) {
        (registrations_view(self.registrations@), self.initialized)
    }
}

impl CrossPlatformHotkeyManager {
    /// An uninitialized registry without hotkeys.
    pub fn new() -> (r: Self)
        ensures
            r@.0.len() == 0,
            !r@.1,
    {
        let r = CrossPlatformHotkeyManager { registrations: Vec::new(), initialized: false };
        assert(registrations_view(r.registrations@) =~= seq![]);
        r
    }

    /// Marks the registry as initialized.
    pub fn initialize(&mut self)
        ensures
            final(self)@ == (old(self)@.0, true),
    {
        self.initialized = true;
    }

    /// Registers a hotkey whose platform registration, if any, took id
    /// `platform_id`: refused before initialization or where its key
    /// combination does not parse; else it is active and replaces one with
    /// the same id.
    pub fn register_hotkey(&mut self, hotkey: &Hotkey, platform_id: Option<u32>) -> (r: Result<(), HotkeyError>)
        ensures
            ids_distinct(old(self)@.0) ==> ids_distinct(final(self)@.0),
            !old(self)@.1 ==> (r matches Err(HotkeyError::NotInitialized)) && final(self)@ == old(self)@,
            old(self)@.1 && parsed_combination(hotkey.key_combination@) is Err ==> (r matches Err(e)
                && parse_error(hotkey.key_combination@, e)) && final(self)@ == old(self)@,
            old(self)@.1 && parsed_combination(hotkey.key_combination@) is Ok ==> r is Ok
                && final(self)@ == (
                registered(
                    old(self)@.0,
                    RegistrationModel {
                        id: hotkey.id@,
                        key_combination: hotkey.key_combination@,
                        action: hotkey.action@,
                        description: hotkey.description@,
                        is_active: true,
                        platform_id,
                    },
                ),
                true,
            ),
    {
        if !self.initialized {
            return Err(HotkeyError::NotInitialized);
        }
        let mut reg = HotkeyRegistration::from_hotkey(hotkey);
        match parse_key_combination(&hotkey.key_combination) {
            Err(e) => {
                return Err(e);
            },
            Ok(_) => {},
        }
        reg.platform_id = platform_id;
        reg.is_active = true;
        let ghost rv = reg@;
        let ghost ov = registrations_view(self.registrations@);
        let mut k: usize = 0;
        while k < self.registrations.len()
            invariant
                k <= self.registrations@.len(),
                self.initialized,
                old(self)@.1,
                ov == old(self)@.0,
                parsed_combination(hotkey.key_combination@) is Ok,
                rv == (RegistrationModel {
                    id: hotkey.id@,
                    key_combination: hotkey.key_combination@,
                    action: hotkey.action@,
                    description: hotkey.description@,
                    is_active: true,
                    platform_id,
                }),
                ov == registrations_view(self.registrations@),
                rv == reg@,
                forall|j: int| 0 <= j < k ==> (#[trigger] ov[j]).id != rv.id,
            decreases self.registrations@.len() - k,
        {
            if str_eq(&self.registrations[k].id, &reg.id) {
                proof {
                    assert(first_with_id(ov, rv.id, k as int));
                    let ch = choose|j: int| #[trigger] first_with_id(ov, rv.id, j);
                    if ch < k {
                        assert(ov[ch].id != rv.id);
                    }
                    if ch > k {
                        assert(ov[k as int].id != rv.id);
                    }
                }
                self.registrations.set(k, reg);
                assert(registrations_view(self.registrations@) =~= ov.update(k as int, rv));
                assert(ids_distinct(ov) ==> ids_distinct(ov.update(k as int, rv))) by {
                    if ids_distinct(ov) {
                        assert forall|i: int, j: int| 0 <= i < j < ov.len() implies (#[trigger] ov.update(
                            k as int,
                            rv,
                        )[i]).id != (#[trigger] ov.update(k as int, rv)[j]).id by {
                            assert(ov[i].id != ov[j].id);
                        }
                    }
                }
                return Ok(());
            }
            k += 1;
        }
        self.registrations.push(reg);
        assert(registrations_view(self.registrations@) =~= ov.push(rv));
        assert(!exists|j: int| #[trigger] first_with_id(ov, rv.id, j));
        assert(ids_distinct(ov) ==> ids_distinct(ov.push(rv))) by {
            if ids_distinct(ov) {
                assert forall|i: int, j: int| 0 <= i < j < ov.len() + 1 implies (#[trigger] ov.push(rv)[i]).id
                    != (#[trigger] ov.push(rv)[j]).id by {
                    if j < ov.len() {
                        assert(ov[i].id != ov[j].id);
                    }
                }
            }
        }
        Ok(())
    }

    /// Removes the hotkey with an id; the registration removed, if any.
    pub fn unregister_hotkey(&mut self, hotkey_id: &str) -> (r: Option<HotkeyRegistration>)
        ensures
            final(self)@.1 == old(self)@.1,
            final(self)@.0 == without_hotkey(old(self)@.0, hotkey_id@),
            r matches Some(x) ==> x@.id == hotkey_id@ && old(self)@.0.contains(x@),
            r is None ==> forall|k: int| 0 <= k < old(self)@.0.len() ==> (#[trigger] old(self)@.0[k]).id
                != hotkey_id@,
    {
        let ghost ov = registrations_view(self.registrations@);
        let mut kept: Vec<HotkeyRegistration> = Vec::new();
        let mut removed: Option<HotkeyRegistration> = None;
        let mut i: usize = 0;
        proof {
            reveal(Seq::filter);
        }
        assert(ov.take(0) =~= Seq::<RegistrationModel>::empty());
        assert(registrations_view(kept@) =~= seq![]);
        while i < self.registrations.len()
            invariant
                i <= self.registrations@.len(),
                ov == registrations_view(self.registrations@),
                registrations_view(kept@) == ov.take(i as int).filter(
                    |x: RegistrationModel| x.id != hotkey_id@,
                ),
                removed matches Some(x) ==> x@.id == hotkey_id@ && ov.contains(x@),
                removed is None ==> forall|k: int| 0 <= k < i ==> (#[trigger] ov[k]).id != hotkey_id@,
            decreases self.registrations@.len() - i,
        {
            let x = &self.registrations[i];
            assert(ov.take(i as int + 1) == ov.take(i as int).push(x@));
            proof {
                ov.take(i as int).lemma_filter_push(x@, |y: RegistrationModel| y.id != hotkey_id@);
            }
            if str_eq(&x.id, hotkey_id) {
                assert(ov[i as int] == x@);
                removed = Some(x.duplicate());
            } else {
                let ghost o = registrations_view(kept@);
                kept.push(x.duplicate());
                assert(registrations_view(kept@) =~= o.push(x@));
            }
            i += 1;
        }
        assert(ov.take(ov.len() as int) == ov);
        self.registrations = kept;
        removed
    }

    /// Whether the manager is initialized.
    pub fn is_initialized(&self) -> (r: bool)
        ensures
            r == self@.1,
    {
        self.initialized
    }

    /// Removes every hotkey and returns to the uninitialized state.
    pub fn shutdown(&mut self)
        ensures
            final(self)@ == (Seq::<RegistrationModel>::empty(), false),
    {
        let _ = self.unregister_all();
        self.initialized = false;
    }

    /// Registers the application's default hotkeys in turn (see
    /// [`default_hotkeys`]), each with platform id `platform_id`, stopping
    /// at the first refusal.
    pub fn register_default_hotkeys(&mut self, platform_id: Option<u32>) -> (r: Result<(), HotkeyError>)
        ensures
            !old(self)@.1 ==> (r matches Err(HotkeyError::NotInitialized)) && final(self)@ == old(self)@,
            old(self)@.1 ==> final(self)@ == (defaults_registered(old(self)@.0, platform_id, 3).0, true) && (
            r is Ok <==> defaults_registered(old(self)@.0, platform_id, 3).1),
    {
        if !self.initialized {
            return Err(HotkeyError::NotInitialized);
        }
        let defaults = default_hotkeys();
        let mut i: usize = 0;
        while i < 3
            invariant
                i <= 3,
                defaults@.len() == 3,
                forall|k: int| 0 <= k < 3 ==> #[trigger] hotkey_model(defaults@[k]) == default_hotkey_models()[k],
                self@.1,
                old(self)@.1,
                self@.0 == defaults_registered(old(self)@.0, platform_id, i as nat).0,
                defaults_registered(old(self)@.0, platform_id, i as nat).1,
            decreases 3 - i,
        {
            assert(hotkey_model(defaults@[i as int]) == default_hotkey_models()[i as int]);
            let r = self.register_hotkey(&defaults[i], platform_id);
            if r.is_err() {
                proof {
                    lemma_defaults_failure_persists(old(self)@.0, platform_id, (i + 1) as nat, 3);
                }
                return r;
            }
            i += 1;
        }
        Ok(())
    }

    /// Removes every hotkey; the registrations removed, in order.
    pub fn unregister_all(&mut self) -> (r: Vec<HotkeyRegistration>)
        ensures
            final(self)@ == (Seq::<RegistrationModel>::empty(), old(self)@.1),
            registrations_view(r@) == old(self)@.0,
    {
        let mut r: Vec<HotkeyRegistration> = Vec::new();
        std::mem::swap(&mut r, &mut self.registrations);
        assert(registrations_view(self.registrations@) =~= seq![]);
        r
    }

    /// Copies of the registrations.
    pub fn get_registered_hotkeys(&self) -> (r: Vec<HotkeyRegistration>)
        ensures
            registrations_view(r@) == self@.0,
    {
        let mut r: Vec<HotkeyRegistration> = Vec::new();
        let mut i: usize = 0;
        while i < self.registrations.len()
            invariant
                i <= self.registrations@.len(),
                registrations_view(r@) == registrations_view(self.registrations@).take(i as int),
            decreases self.registrations@.len() - i,
        {
            let ghost o = registrations_view(r@);
            let d = self.registrations[i].duplicate();
            r.push(d);
            assert(registrations_view(r@) =~= o.push(d@));
            assert(registrations_view(self.registrations@).take(i as int + 1) =~= registrations_view(
                self.registrations@,
            ).take(i as int).push(self.registrations@[i as int]@));
            i += 1;
        }
        assert(registrations_view(self.registrations@).take(i as int) == registrations_view(
            self.registrations@,
        ));
        r
    }

    /// Whether a hotkey with an id is registered.
    pub fn is_hotkey_registered(&self, hotkey_id: &str) -> (r: bool)
        ensures
            r == exists|k: int| 0 <= k < self@.0.len() && (#[trigger] self@.0[k]).id == hotkey_id@,
    {
        let mut i: usize = 0;
        while i < self.registrations.len()
            invariant
                i <= self.registrations@.len(),
                forall|k: int| 0 <= k < i ==> (#[trigger] self@.0[k]).id != hotkey_id@,
            decreases self.registrations@.len() - i,
        {
            assert(self@.0[i as int] == self.registrations@[i as int]@);
            if str_eq(&self.registrations[i].id, hotkey_id) {
                return true;
            }
            i += 1;
        }
        false
    }
}


/// A hotkey just registered is in force: its registration stands in the
/// registry, and its id is found.
pub proof fn law_registered_hotkey_is_found(v: Seq<RegistrationModel>, r: RegistrationModel)
    ensures
        registered(v, r).contains(r),
        exists|k: int| 0 <= k < registered(v, r).len() && (#[trigger] registered(v, r)[k]).id == r.id,
{
    let g = registered(v, r);
    if exists|k: int| #[trigger] first_with_id(v, r.id, k) {
        let c = choose|k: int| #[trigger] first_with_id(v, r.id, k);
        assert(g[c] == r);
    } else {
        assert(g[v.len() as int] == r);
    }
}

/// A hotkey just unregistered is no longer found.
pub proof fn law_unregistered_hotkey_is_gone(v: Seq<RegistrationModel>, id: Seq<char>)
    ensures
        forall|k: int| 0 <= k < without_hotkey(v, id).len() ==> (#[trigger] without_hotkey(v, id)[k]).id != id,
{
    let p = |x: RegistrationModel| x.id != id;
    assert forall|k: int| 0 <= k < without_hotkey(v, id).len() implies (#[trigger] without_hotkey(v, id)[k]).id != id by {
        v.lemma_filter_pred(p, k);
    }
}

impl Default for CrossPlatformHotkeyManager {
    fn default() -> (r: Self)
        ensures
            r@.0.len() == 0,
            !r@.1,
    {
        Self::new()
    }
}

} // verus!
