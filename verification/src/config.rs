//! The configuration data model: a named spec bound to a target, carrying a
//! provider variant and an open variable payload, together with the
//! document codec used for configuration files and state snapshots.

use vstd::prelude::*;
use vstd::string::StringExecFns;

use crate::errors::ApplyError;
use crate::state::{find_resource, ResourceStore, StateAdapter};
use crate::value::{
    entry_keys_unique, is_merge_of, merge_variables, obj_index_of, obj_lookup, top_keys_unique,
    value_sim, Value,
};

verus! {

/// How a configuration is applied: by the external playbook tool, or by a
/// shell script (whose execution is a deliberate stub).
#[derive(Debug, PartialEq, Eq)]
pub enum ConfigProvider {
    Ansible { playbook: String, inventory: String },
    Shell { script: String },
}

/// A declarative configuration: unique name, the logical target environment
/// it is meant for, the provider that applies it, and its variables.
#[derive(Debug, PartialEq, Eq)]
pub struct ConfigSpec {
    pub name: String,
    pub target: String,
    pub provider: ConfigProvider,
    pub variables: Value,
}

impl Clone for ConfigProvider {
    /// Copies the provider; paths are kept character for character.
    fn clone(&self) -> (r: Self)
        ensures
            r == *self,
    {
        match self {
            ConfigProvider::Ansible { playbook, inventory } => ConfigProvider::Ansible {
                playbook: playbook.clone(),
                inventory: inventory.clone(),
            },
            ConfigProvider::Shell { script } => ConfigProvider::Shell { script: script.clone() },
        }
    }
}

/// Two specs that agree on name, target and provider, with structurally
/// alike variables.
pub open spec fn spec_sim(a: ConfigSpec, b: ConfigSpec) -> bool {
    &&& a.name == b.name
    &&& a.target == b.target
    &&& a.provider == b.provider
    &&& crate::value::value_sim(a.variables, b.variables)
}

impl Clone for ConfigSpec {
    /// Copies the spec; the variable payload is deep-copied.
    fn clone(&self) -> (r: Self)
        ensures
            spec_sim(r, *self),
    {
        ConfigSpec {
            name: self.name.clone(),
            target: self.target.clone(),
            provider: self.provider.clone(),
            variables: self.variables.clone(),
        }
    }
}

/// The document form of a provider: a tagged object whose `type` entry names
/// the variant in lower case and whose remaining entries are its paths.
pub open spec fn provider_doc_matches(d: Value, p: ConfigProvider) -> bool {
    &&& d is Obj
    &&& entry_keys_unique(d->Obj_0@)
    &&& match p {
        ConfigProvider::Ansible { playbook, inventory } => {
            &&& (obj_lookup(d->Obj_0@, "type"@) matches Some(Value::Text(t)) && t@ == "ansible"@)
            &&& obj_lookup(d->Obj_0@, "playbook"@) == Some(Value::Text(playbook))
            &&& obj_lookup(d->Obj_0@, "inventory"@) == Some(Value::Text(inventory))
        },
        ConfigProvider::Shell { script } => {
            &&& (obj_lookup(d->Obj_0@, "type"@) matches Some(Value::Text(t)) && t@ == "shell"@)
            &&& obj_lookup(d->Obj_0@, "script"@) == Some(Value::Text(script))
        },
    }
}

/// The document form of a whole spec: one object holding its name, target,
/// provider document and variables. This is both the configuration file's
/// structure and the state snapshot written on apply.
pub open spec fn document_matches(d: Value, s: ConfigSpec) -> bool {
    &&& d is Obj
    &&& entry_keys_unique(d->Obj_0@)
    &&& obj_lookup(d->Obj_0@, "name"@) == Some(Value::Text(s.name))
    &&& obj_lookup(d->Obj_0@, "target"@) == Some(Value::Text(s.target))
    &&& (obj_lookup(d->Obj_0@, "provider"@) matches Some(pd) && provider_doc_matches(
        pd,
        s.provider,
    ))
    &&& obj_lookup(d->Obj_0@, "variables"@) == Some(s.variables)
}

/// What a provider document denotes, if anything.
pub open spec fn parse_provider(d: Value) -> Option<ConfigProvider> {
    if d is Obj {
        match obj_lookup(d->Obj_0@, "type"@) {
            Some(Value::Text(t)) => if t@ == "ansible"@ {
                match (obj_lookup(d->Obj_0@, "playbook"@), obj_lookup(d->Obj_0@, "inventory"@)) {
                    (Some(Value::Text(p)), Some(Value::Text(i))) => Some(
                        ConfigProvider::Ansible { playbook: p, inventory: i },
                    ),
                    _ => None,
                }
            } else if t@ == "shell"@ {
                match obj_lookup(d->Obj_0@, "script"@) {
                    Some(Value::Text(sc)) => Some(ConfigProvider::Shell { script: sc }),
                    _ => None,
                }
            } else {
                None
            },
            _ => None,
        }
    } else {
        None
    }
}

/// What a configuration document denotes, if anything.
pub open spec fn parse_document(d: Value) -> Option<ConfigSpec> {
    if d is Obj {
        match (
            obj_lookup(d->Obj_0@, "name"@),
            obj_lookup(d->Obj_0@, "target"@),
            obj_lookup(d->Obj_0@, "provider"@),
            obj_lookup(d->Obj_0@, "variables"@),
        ) {
            (Some(Value::Text(n)), Some(Value::Text(t)), Some(pd), Some(v)) => match parse_provider(
                pd,
            ) {
                Some(p) => Some(ConfigSpec { name: n, target: t, provider: p, variables: v }),
                _ => None,
            },
            _ => None,
        }
    } else {
        None
    }
}

/// Serializes a spec into its document form.
pub fn to_document(spec: ConfigSpec) -> (r: Value)
    ensures
        document_matches(r, spec),
{
    let provider_doc: Value = match spec.provider {
        ConfigProvider::Ansible { playbook, inventory } => {
            let mut es: Vec<(String, Value)> = Vec::new();
            es.push(("type".to_owned(), Value::Text("ansible".to_owned())));
            es.push(("playbook".to_owned(), Value::Text(playbook)));
            es.push(("inventory".to_owned(), Value::Text(inventory)));
            proof {
                lemma_doc_key_facts();
                reveal_with_fuel(obj_lookup, 5);
            }
            Value::Obj(es)
        },
        ConfigProvider::Shell { script } => {
            let mut es: Vec<(String, Value)> = Vec::new();
            es.push(("type".to_owned(), Value::Text("shell".to_owned())));
            es.push(("script".to_owned(), Value::Text(script)));
            proof {
                lemma_doc_key_facts();
                reveal_with_fuel(obj_lookup, 4);
            }
            Value::Obj(es)
        },
    };
    let mut es: Vec<(String, Value)> = Vec::new();
    es.push(("name".to_owned(), Value::Text(spec.name)));
    es.push(("target".to_owned(), Value::Text(spec.target)));
    es.push(("provider".to_owned(), provider_doc));
    es.push(("variables".to_owned(), spec.variables));
    proof {
        lemma_doc_key_facts();
        reveal_with_fuel(obj_lookup, 6);
    }
    Value::Obj(es)
}

/// Removes the first entry holding a key and hands its value out; every
/// other key still resolves as before.
fn take_entry(entries: &mut Vec<(String, Value)>, key: &String) -> (r: Option<Value>)
    ensures
        match r {
            Some(v) => obj_lookup(old(entries)@, key@) == Some(v) && (forall|k2: Seq<char>|
                k2 != key@ ==> #[trigger] obj_lookup(final(entries)@, k2) == obj_lookup(
                    old(entries)@,
                    k2,
                )),
            None => obj_lookup(old(entries)@, key@) is None && final(entries)@ == old(entries)@,
        },
{
    match obj_index_of(entries, key) {
        Some(j) => {
            proof {
                crate::value::lemma_lookup_first_match(entries@, key@, j as int);
            }
            let ghost before = entries@;
            let (_k, v) = entries.remove(j);
            proof {
                assert forall|k2: Seq<char>| k2 != key@ implies #[trigger] obj_lookup(
                    entries@,
                    k2,
                ) == obj_lookup(before, k2) by {
                    lemma_lookup_remove(before, j as int, k2);
                }
            }
            Some(v)
        },
        None => {
            proof {
                crate::value::lemma_lookup_none(entries@, key@);
            }
            None
        },
    }
}

/// Removing an entry that is the first match of its own key leaves every
/// other key's resolution unchanged.
proof fn lemma_lookup_remove(entries: Seq<(String, Value)>, j: int, key2: Seq<char>)
    requires
        0 <= j < entries.len(),
        forall|i: int| 0 <= i < j ==> (#[trigger] entries[i]).0@ != entries[j].0@,
        entries[j].0@ != key2,
    ensures
        obj_lookup(entries.remove(j), key2) == obj_lookup(entries, key2),
    decreases j,
{
    if j == 0 {
        assert(entries.remove(0) =~= entries.drop_first());
    } else {
        assert(entries.remove(j).drop_first() =~= entries.drop_first().remove(j - 1));
        assert(entries.remove(j)[0] == entries[0]);
        lemma_lookup_remove(entries.drop_first(), j - 1, key2);
    }
}

/// Parses a provider document; fails exactly on documents that denote no
/// provider.
fn provider_from_document(d: Value) -> (r: Result<ConfigProvider, ApplyError>)
    ensures
        r matches Ok(p) ==> parse_provider(d) == Some(p),
        r is Err ==> parse_provider(d) is None && r == Err::<ConfigProvider, ApplyError>(
            ApplyError::InvalidConfig,
        ),
{
    let ghost gd = d;
    match d {
        Value::Obj(mut entries) => {
            proof {
                lemma_doc_key_facts();
            }
            let tv = take_entry(&mut entries, &"type".to_owned());
            match tv {
                Some(Value::Text(t)) => {
                    if t == "ansible".to_owned() {
                        let pv = take_entry(&mut entries, &"playbook".to_owned());
                        let iv = take_entry(&mut entries, &"inventory".to_owned());
                        match (pv, iv) {
                            (Some(Value::Text(p)), Some(Value::Text(i))) => Ok(
                                ConfigProvider::Ansible { playbook: p, inventory: i },
                            ),
                            _ => Err(ApplyError::InvalidConfig),
                        }
                    } else if t == "shell".to_owned() {
                        let sv = take_entry(&mut entries, &"script".to_owned());
                        match sv {
                            Some(Value::Text(sc)) => Ok(ConfigProvider::Shell { script: sc }),
                            _ => Err(ApplyError::InvalidConfig),
                        }
                    } else {
                        Err(ApplyError::InvalidConfig)
                    }
                },
                _ => Err(ApplyError::InvalidConfig),
            }
        },
        _ => Err(ApplyError::InvalidConfig),
    }
}

/// Parses a configuration document; fails exactly on documents that denote
/// no spec.
pub fn from_document(d: Value) -> (r: Result<ConfigSpec, ApplyError>)
    ensures
        r matches Ok(s) ==> parse_document(d) == Some(s),
        r is Err ==> parse_document(d) is None && r == Err::<ConfigSpec, ApplyError>(
            ApplyError::InvalidConfig,
        ),
{
    let ghost gd = d;
    match d {
        Value::Obj(mut entries) => {
            proof {
                lemma_doc_key_facts();
            }
            let nv = take_entry(&mut entries, &"name".to_owned());
            let tv = take_entry(&mut entries, &"target".to_owned());
            let pv = take_entry(&mut entries, &"provider".to_owned());
            let vv = take_entry(&mut entries, &"variables".to_owned());
            match (nv, tv, pv, vv) {
                (Some(Value::Text(n)), Some(Value::Text(t)), Some(pd), Some(v)) => {
                    match provider_from_document(pd) {
                        Ok(p) => Ok(ConfigSpec { name: n, target: t, provider: p, variables: v }),
                        Err(e) => Err(e),
                    }
                },
                _ => Err(ApplyError::InvalidConfig),
            }
        },
        _ => Err(ApplyError::InvalidConfig),
    }
}

/// The key and tag literals of the document format are pairwise distinct.
proof fn lemma_doc_key_facts()
    ensures
        "name"@ != "target"@ && "name"@ != "provider"@ && "name"@ != "variables"@,
        "target"@ != "provider"@ && "target"@ != "variables"@,
        "provider"@ != "variables"@,
        "type"@ != "playbook"@ && "type"@ != "inventory"@ && "type"@ != "script"@,
        "playbook"@ != "inventory"@ && "playbook"@ != "script"@,
        "inventory"@ != "script"@,
        "ansible"@ != "shell"@,
{
    reveal_strlit("name");
    reveal_strlit("target");
    reveal_strlit("provider");
    reveal_strlit("variables");
    reveal_strlit("type");
    reveal_strlit("playbook");
    reveal_strlit("inventory");
    reveal_strlit("script");
    reveal_strlit("ansible");
    reveal_strlit("shell");
    assert(("name"@).len() == 4);
    assert(("target"@).len() == 6);
    assert(("provider"@).len() == 8);
    assert(("variables"@).len() == 9);
    assert(("type"@).len() == 4);
    assert(("playbook"@).len() == 8);
    assert(("inventory"@).len() == 9);
    assert(("script"@).len() == 6);
    assert(("ansible"@).len() == 7);
    assert(("shell"@).len() == 5);
}

/// Serializing a spec and parsing the document back yields the spec again,
/// for both provider variants.
pub proof fn lemma_document_round_trip(d: Value, s: ConfigSpec)
    requires
        document_matches(d, s),
    ensures
        parse_document(d) == Some(s),
{
    lemma_doc_key_facts();
}

/// The target named in a spec must be the one the caller requested; a
/// mismatch is rejected before any side effect.
pub fn check_target(spec: &ConfigSpec, requested: &String) -> (r: Result<(), ApplyError>)
    ensures
        r is Ok <==> spec.target@ == requested@,
        r matches Err(e) ==> e == (ApplyError::TargetMismatch {
            expected: spec.target,
            requested: *requested,
        }),
{
    if spec.target == *requested {
        Ok(())
    } else {
        Err(
            ApplyError::TargetMismatch {
                expected: spec.target.clone(),
                requested: requested.clone(),
            },
        )
    }
}

/// Synthesizes the spec the import flow writes out: the given playbook and
/// inventory under the Ansible provider, target defaulted to `dev`, and an
/// empty variable payload.
pub fn import_spec(playbook: String, inventory: String, name: String) -> (r: ConfigSpec)
    ensures
        r.name == name,
        r.target@ == "dev"@,
        r.provider == (ConfigProvider::Ansible { playbook, inventory }),
        r.variables matches Value::Obj(es) && es@.len() == 0,
        top_keys_unique(r.variables),
{
    ConfigSpec {
        name,
        target: "dev".to_owned(),
        provider: ConfigProvider::Ansible { playbook, inventory },
        variables: Value::empty_object(),
    }
}

/// What the Ansible provider needs to run: assembled by the apply pipeline,
/// executed by the caller's I/O layer.
#[derive(Debug)]
pub struct ProviderRequest {
    pub playbook: String,
    pub inventory: String,
    pub variables: Value,
}

/// A state snapshot records the spec applied: its name, target and provider
/// exactly, and a structurally alike copy of its variables at apply time.
pub open spec fn snapshot_for(d: Value, s: ConfigSpec) -> bool {
    exists|vc: Value| #[trigger] value_sim(vc, s.variables) && document_matches(
        d,
        ConfigSpec { name: s.name, target: s.target, provider: s.provider, variables: vc },
    )
}

/// Orchestrates apply: records intended state first, then dispatches on the
/// provider; a provider failure never rolls the record back.
pub struct ConfigManager {
    state: StateAdapter,
}

/// Everything one apply step promises: the manager still well formed, exactly
/// one record under the spec's name holding the attempted snapshot, every
/// other id untouched, and the dispatch outcome decided by the provider
/// variant alone (the request for Ansible, the loud stub failure for Shell).
pub open spec fn apply_outcome(
    m0: ConfigManager,
    m1: ConfigManager,
    s: ConfigSpec,
    r: Result<ProviderRequest, ApplyError>,
) -> bool {
    &&& m1.wf()
    &&& (m1.snapshot_of(s.name@) matches Some(d) && snapshot_for(d, s))
    &&& m1.record_count(s.name@) == 1
    &&& forall|id2: Seq<char>|
        id2 != s.name@ ==> #[trigger] find_resource(m1.adapter()@, id2) == find_resource(
            m0.adapter()@,
            id2,
        )
    &&& match s.provider {
        ConfigProvider::Ansible { playbook, inventory } => r matches Ok(q) && q.playbook
            == playbook && q.inventory == inventory && q.variables == s.variables,
        ConfigProvider::Shell { .. } => r == Err::<ProviderRequest, ApplyError>(
            ApplyError::ShellNotImplemented,
        ),
    }
}

impl ConfigManager {
    pub closed spec fn adapter(self) -> StateAdapter {
        self.state
    }

    pub open spec fn wf(self) -> bool {
        self.adapter().wf()
    }

    /// The snapshot recorded under a configuration name, if any.
    pub open spec fn snapshot_of(self, id: Seq<char>) -> Option<Value> {
        self.adapter().config_snapshot(id)
    }

    /// How many records the store holds under a configuration name.
    pub open spec fn record_count(self, id: Seq<char>) -> nat {
        self.adapter().config_count(id)
    }

    pub fn new(store: ResourceStore) -> (r: Self)
        requires
            store.wf(),
        ensures
            r.wf(),
            r.adapter()@ == store@,
    {
        ConfigManager { state: StateAdapter::new(store) }
    }

    /// A view of the adapter, for callers that inspect recorded state.
    pub fn state_adapter(&self) -> (r: &StateAdapter)
        ensures
            *r == self.adapter(),
    {
        &self.state
    }

    /// Applies a spec: writes the state record first — the record means
    /// "apply was attempted with these exact inputs" — and only then
    /// dispatches on the provider. The Ansible variant yields the request to
    /// run; the Shell variant fails loudly as a deliberate stub.
    pub fn apply_config(&mut self, spec: ConfigSpec) -> (r: Result<ProviderRequest, ApplyError>)
        requires
            old(self).wf(),
        ensures
            apply_outcome(*old(self), *final(self), spec, r),
    {
        let snap_source = spec.clone();
        let ghost gsnap_spec = snap_source;
        let snap = to_document(snap_source);
        let ghost gsnap = snap;
        let id = spec.name.clone();
        self.state.add_config_state(id, snap);
        proof {
            assert(gsnap_spec == (ConfigSpec {
                name: spec.name,
                target: spec.target,
                provider: spec.provider,
                variables: gsnap_spec.variables,
            }));
            assert(value_sim(gsnap_spec.variables, spec.variables));
            assert(snapshot_for(gsnap, spec));
        }
        match spec.provider {
            ConfigProvider::Ansible { playbook, inventory } => Ok(
                ProviderRequest { playbook, inventory, variables: spec.variables },
            ),
            ConfigProvider::Shell { .. } => Err(ApplyError::ShellNotImplemented),
        }
    }
}

/// The whole apply flow: the requested target must match the spec's before
/// anything happens; then extra variables are merged over the file-defined
/// ones, the state record written, and the provider dispatched.
pub fn run_apply(
    manager: &mut ConfigManager,
    spec: ConfigSpec,
    requested_target: &String,
    extra_vars: Value,
) -> (r: Result<ProviderRequest, ApplyError>)
    requires
        old(manager).wf(),
        top_keys_unique(spec.variables),
        top_keys_unique(extra_vars),
    ensures
        (*final(manager)).wf(),
        spec.target@ != requested_target@ ==> r == Err::<ProviderRequest, ApplyError>(
            ApplyError::TargetMismatch { expected: spec.target, requested: *requested_target },
        ) && *final(manager) == *old(manager),
        spec.target@ == requested_target@ ==> exists|m: Value| #[trigger] is_merge_of(
            m,
            spec.variables,
            extra_vars,
        ) && apply_outcome(
            *old(manager),
            *final(manager),
            (ConfigSpec {
                name: spec.name,
                target: spec.target,
                provider: spec.provider,
                variables: m,
            }),
            r,
        ),
{
    match check_target(&spec, requested_target) {
        Err(e) => Err(e),
        Ok(()) => {
            let ghost gspec = spec;
            let ghost gextra = extra_vars;
            let ConfigSpec { name, target, provider, variables } = spec;
            let merged = merge_variables(variables, extra_vars);
            let ghost gmerged = merged;
            let merged_spec = ConfigSpec { name, target, provider, variables: merged };
            let r = manager.apply_config(merged_spec);
            proof {
                assert(is_merge_of(gmerged, gspec.variables, gextra));
            }
            r
        },
    }
}

/// Law: state is written before the provider runs. Once apply has decided,
/// exactly one record stands under the spec's name and holds the attempted
/// snapshot — and any failure apply itself returns is a provider-stage
/// failure (the shell stub), never a state-stage one.
pub proof fn lemma_state_recorded_before_provider(
    m0: ConfigManager,
    m1: ConfigManager,
    s: ConfigSpec,
    r: Result<ProviderRequest, ApplyError>,
)
    requires
        apply_outcome(m0, m1, s, r),
    ensures
        m1.record_count(s.name@) == 1,
        m1.snapshot_of(s.name@) is Some,
        r matches Err(e) ==> e == ApplyError::ShellNotImplemented,
{
}

/// Law: re-applying under the same name overwrites. After two applies there
/// is still exactly one record for the name, holding the later snapshot.
pub proof fn lemma_reapply_overwrites(
    m0: ConfigManager,
    m1: ConfigManager,
    m2: ConfigManager,
    s1: ConfigSpec,
    s2: ConfigSpec,
    r1: Result<ProviderRequest, ApplyError>,
    r2: Result<ProviderRequest, ApplyError>,
)
    requires
        apply_outcome(m0, m1, s1, r1),
        apply_outcome(m1, m2, s2, r2),
        s1.name@ == s2.name@,
    ensures
        m2.record_count(s1.name@) == 1,
        m2.snapshot_of(s1.name@) matches Some(d) && snapshot_for(d, s2),
{
}

/// The file name the import flow writes a new configuration to.
pub fn import_file_name(name: &String) -> (r: String)
    ensures
        r@ == name@ + ".toml"@,
{
    let mut s = name.clone();
    s.append(".toml");
    s
}

} // verus!

