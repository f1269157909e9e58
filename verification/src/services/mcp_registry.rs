//! Plugin-declared MCP server registry.
//!
//! It remembers which plugin contributed each server, so that reloading one plugin leaves
//! the others alone.

use vstd::prelude::*;

use crate::plugins::{McpServerConfig, Plugin};
use crate::string_map::{self, StringMap};
use crate::text;

verus! {

/// Transport-neutral description of one MCP server.
#[derive(Clone, Debug)]
pub struct McpServerSpec {
    /// Executable to spawn (`stdio` transport) or absent for `http`.
    pub command: Option<String>,
    /// Arguments to the executable (`stdio` transport).
    pub args: Vec<String>,
    /// Environment variables injected on spawn.
    pub env: StringMap<String>,
    /// `"stdio"` or `"http"`.
    pub transport: String,
    /// Endpoint URL (`http` transport) or absent for `stdio`.
    pub url: Option<String>,
}

/// What the description of a server says.
pub struct ServerView {
    pub command: Option<Seq<char>>,
    pub args: Seq<Seq<char>>,
    pub env: Map<Seq<char>, Seq<char>>,
    pub transport: Seq<char>,
    pub url: Option<Seq<char>>,
}

impl View for McpServerSpec {
    type V = ServerView;

    open spec fn view(&self) -> ServerView {
        ServerView {
            command: text::opt_view(self.command),
            args: text::views(self.args@),
            env: string_map::text_map(self.env@),
            transport: self.transport@,
            url: text::opt_view(self.url),
        }
    }
}

/// What a manifest entry says.
pub open spec fn config_view(cfg: McpServerConfig) -> ServerView {
    ServerView {
        command: text::opt_view(cfg.command),
        args: text::views(cfg.args@),
        env: string_map::text_map(cfg.env@),
        transport: cfg.transport@,
        url: text::opt_view(cfg.url),
    }
}

impl McpServerSpec {
    /// Mirror a manifest entry. Nothing is validated here.
    pub fn from_plugin_config(cfg: &McpServerConfig) -> (s: McpServerSpec)
        ensures
            s@ == config_view(*cfg),
    {
        McpServerSpec {
            command: text::copy_opt(&cfg.command),
            args: text::copy_strings(&cfg.args),
            env: string_map::copy_text_map(&cfg.env),
            transport: cfg.transport.clone(),
            url: text::copy_opt(&cfg.url),
        }
    }

    /// A copy of the description.
    pub fn copy(&self) -> (s: McpServerSpec)
        ensures
            s@ == self@,
    {
        McpServerSpec {
            command: text::copy_opt(&self.command),
            args: text::copy_strings(&self.args),
            env: string_map::copy_text_map(&self.env),
            transport: self.transport.clone(),
            url: text::copy_opt(&self.url),
        }
    }
}

/// One registered (plugin, server) pair.
#[derive(Clone, Debug)]
pub struct McpRegistration {
    /// Owning plugin id.
    pub plugin_id: String,
    /// Name the plugin gave the server.
    pub server_name: String,
    /// How to start it.
    pub spec: McpServerSpec,
}

/// What a registration says.
pub struct RegistrationView {
    pub plugin_id: Seq<char>,
    pub server_name: Seq<char>,
    pub spec: ServerView,
}

impl View for McpRegistration {
    type V = RegistrationView;

    open spec fn view(&self) -> RegistrationView {
        RegistrationView {
            plugin_id: self.plugin_id@,
            server_name: self.server_name@,
            spec: self.spec@,
        }
    }
}

impl McpRegistration {
    /// A copy of the registration.
    pub fn copy(&self) -> (r: McpRegistration)
        ensures
            r@ == self@,
    {
        McpRegistration {
            plugin_id: self.plugin_id.clone(),
            server_name: self.server_name.clone(),
            spec: self.spec.copy(),
        }
    }
}

/// What a list of registrations says.
pub open spec fn registrations_view(list: Seq<McpRegistration>) -> Seq<RegistrationView> {
    Seq::new(list.len(), |i: int| list[i]@)
}

fn push_copies(out: &mut Vec<McpRegistration>, list: &Vec<McpRegistration>)
    ensures
        registrations_view(final(out)@) == registrations_view(old(out)@) + registrations_view(
            list@,
        ),
{
    let ghost before = registrations_view(out@);
    let ghost all = registrations_view(list@);
    let mut i: usize = 0;
    while i < list.len()
        invariant
            0 <= i <= list@.len(),
            all == registrations_view(list@),
            registrations_view(out@) =~= before + all.take(i as int),
        decreases list@.len() - i,
    {
        let ghost now = registrations_view(out@);
        out.push(list[i].copy());
        assert(registrations_view(out@) =~= now.push(all[i as int]));
        i += 1;
    }
}

/// In-memory registry of plugin-contributed MCP servers.
#[derive(Clone, Debug)]
pub struct PluginMcpRegistry {
    by_plugin: StringMap<Vec<McpRegistration>>,
}

impl Default for PluginMcpRegistry {
    fn default() -> (r: PluginMcpRegistry)
        ensures
            r@ == Map::<Seq<char>, Seq<RegistrationView>>::empty(),
            r.plugins() == Seq::<Seq<char>>::empty(),
    {
        let r = PluginMcpRegistry { by_plugin: StringMap::new() };
        assert(r@ =~= Map::<Seq<char>, Seq<RegistrationView>>::empty());
        r
    }
}

impl View for PluginMcpRegistry {
    type V = Map<Seq<char>, Seq<RegistrationView>>;

    closed spec fn view(&self) -> Map<Seq<char>, Seq<RegistrationView>> {
        self.by_plugin@.map_values(|list: Vec<McpRegistration>| registrations_view(list@))
    }
}

/// The registrations of the given plugins, one plugin after the other.
pub open spec fn flattened(
    m: Map<Seq<char>, Seq<RegistrationView>>,
    plugins: Seq<Seq<char>>,
) -> Seq<RegistrationView>
    decreases plugins.len(),
{
    if plugins.len() == 0 {
        seq![]
    } else {
        flattened(m, plugins.drop_last()) + m[plugins.last()]
    }
}

/// A registry once a plugin has its registrations replaced: it is gone where there are
/// none.
pub open spec fn replaced(
    m: Map<Seq<char>, Seq<RegistrationView>>,
    plugin: Seq<char>,
    list: Seq<RegistrationView>,
) -> Map<Seq<char>, Seq<RegistrationView>> {
    if list.len() == 0 {
        m.remove(plugin)
    } else {
        m.insert(plugin, list)
    }
}

/// The registrations of a plugin.
pub open spec fn of_plugin(
    m: Map<Seq<char>, Seq<RegistrationView>>,
    plugin: Seq<char>,
) -> Seq<RegistrationView> {
    if m.dom().contains(plugin) {
        m[plugin]
    } else {
        seq![]
    }
}

impl PluginMcpRegistry {
    /// The plugins with registrations, in order of first registration.
    pub closed spec fn plugins(&self) -> Seq<Seq<char>> {
        self.by_plugin.keys()
    }

    /// Replace every registration of `plugin_id` with the supplied set.
    pub fn replace_plugin(&mut self, plugin_id: &str, registrations: Vec<McpRegistration>)
        ensures
            final(self)@ == replaced(old(self)@, plugin_id@, registrations_view(registrations@)),
    {
        if registrations.is_empty() {
            self.by_plugin.remove(plugin_id);
        } else {
            self.by_plugin.insert(plugin_id.to_owned(), registrations);
        }
        assert(self@ =~= replaced(old(self)@, plugin_id@, registrations_view(registrations@)));
    }

    /// Drop every registration owned by `plugin_id`.
    pub fn remove_plugin(&mut self, plugin_id: &str)
        ensures
            final(self)@ == old(self)@.remove(plugin_id@),
    {
        self.by_plugin.remove(plugin_id);
        assert(self@ =~= old(self)@.remove(plugin_id@));
    }

    /// Every registration, plugin by plugin.
    pub fn all(&self) -> (out: Vec<McpRegistration>)
        ensures
            registrations_view(out@) == flattened(self@, self.plugins()),
            self.plugins().no_duplicates(),
            self.plugins().to_set() == self@.dom(),
    {
        let mut out: Vec<McpRegistration> = Vec::new();
        let n: usize = self.by_plugin.len();
        let ghost plugins = self.plugins();
        proof {
            self.by_plugin.lemma_keys();
            assert(self@.dom() =~= self.by_plugin@.dom());
            assert(registrations_view(out@) =~= seq![]);
            assert(plugins.take(0) =~= seq![]);
        }
        let mut i: usize = 0;
        while i < n
            invariant
                0 <= i <= n,
                n == plugins.len(),
                plugins == self.plugins(),
                plugins.to_set() == self@.dom(),
                registrations_view(out@) == flattened(self@, plugins.take(i as int)),
            decreases n - i,
        {
            proof {
                assert(plugins.take(i + 1).drop_last() =~= plugins.take(i as int));
                assert(plugins.contains(plugins[i as int]));
                assert(plugins.to_set().contains(plugins[i as int]));
            }
            push_copies(&mut out, self.by_plugin.value_at(i));
            i += 1;
        }
        assert(plugins.take(i as int) =~= plugins);
        out
    }

    /// The registrations of one plugin.
    pub fn for_plugin(&self, plugin_id: &str) -> (out: Vec<McpRegistration>)
        ensures
            registrations_view(out@) == of_plugin(self@, plugin_id@),
    {
        let mut out: Vec<McpRegistration> = Vec::new();
        assert(registrations_view(out@) =~= seq![]);
        if let Some(list) = self.by_plugin.get(plugin_id) {
            push_copies(&mut out, list);
            assert(registrations_view(out@) =~= registrations_view(list@));
        }
        out
    }

    /// Total registration count across every plugin.
    pub fn count(&self) -> (n: usize)
        requires
            string_map::items_in(self@) <= usize::MAX,
        ensures
            n == string_map::items_in(self@),
            self@.dom().finite(),
    {
        let plugins: usize = self.by_plugin.len();
        proof {
            self.by_plugin.lemma_keys();
            assert(self@.dom() =~= self.by_plugin@.dom());
            string_map::lemma_items_in(self.by_plugin@, self@, self.by_plugin.keys());
        }
        if plugins == 0 {
            return 0;
        }
        self.by_plugin.total_len()
    }
}

/// Replacing a plugin's servers changes the number of registrations by as many as it has
/// more, or fewer, than before; removing it takes away as many as it had.
pub proof fn replacing_changes_the_count(
    m: Map<Seq<char>, Seq<RegistrationView>>,
    plugin: Seq<char>,
    list: Seq<RegistrationView>,
)
    requires
        m.dom().finite(),
    ensures
        string_map::items_in(replaced(m, plugin, list)) == string_map::items_in(m) - of_plugin(
            m,
            plugin,
        ).len() + list.len(),
        string_map::items_in(m.remove(plugin)) == string_map::items_in(m) - of_plugin(
            m,
            plugin,
        ).len(),
        replaced(m, plugin, list).dom().finite(),
{
    string_map::items_add_up(m, plugin);
    string_map::items_after_insert(m, plugin, list);
    if !m.dom().contains(plugin) {
        assert(m.remove(plugin) =~= m);
    }
}

/// All registrations together are as many as are counted.
pub proof fn all_are_counted(
    m: Map<Seq<char>, Seq<RegistrationView>>,
    plugins: Seq<Seq<char>>,
)
    requires
        plugins.no_duplicates(),
        plugins.to_set() == m.dom(),
    ensures
        flattened(m, plugins).len() == string_map::items_in(m),
    decreases plugins.len(),
{
    plugins.unique_seq_to_set();
    if plugins.len() > 0 {
        let last = plugins.last();
        let rest = plugins.drop_last();
        assert(plugins.to_set().contains(last));
        assert(!rest.contains(last)) by {
            if rest.contains(last) {
                let i = choose|i: int| 0 <= i < rest.len() && rest[i] == last;
                assert(plugins[i] == plugins[plugins.len() - 1]);
            }
        }
        assert forall|k: Seq<char>| rest.to_set().contains(k) == m.remove(last).dom().contains(
            k,
        ) by {
            if rest.contains(k) {
                let i = choose|i: int| 0 <= i < rest.len() && rest[i] == k;
                assert(plugins[i] == k);
                assert(plugins.to_set().contains(k));
            }
            if m.remove(last).dom().contains(k) {
                assert(plugins.to_set().contains(k));
                let i = choose|i: int| 0 <= i < plugins.len() && plugins[i] == k;
                assert(rest[i] == k);
            }
        }
        assert(rest.to_set() =~= m.remove(last).dom());
        all_are_counted(m.remove(last), rest);
        lemma_flattened_without(m, rest, last);
        string_map::items_add_up(m, last);
    } else {
        string_map::items_add_up(m, seq![]);
    }
}

proof fn lemma_flattened_without(
    m: Map<Seq<char>, Seq<RegistrationView>>,
    plugins: Seq<Seq<char>>,
    other: Seq<char>,
)
    requires
        !plugins.contains(other),
    ensures
        flattened(m.remove(other), plugins) == flattened(m, plugins),
    decreases plugins.len(),
{
    if plugins.len() > 0 {
        assert(plugins.contains(plugins.last()));
        assert forall|k: Seq<char>| plugins.drop_last().contains(k) implies plugins.contains(k) by {
            let i = choose|i: int| 0 <= i < plugins.len() - 1 && plugins.drop_last()[i] == k;
            assert(plugins[i] == k);
        }
        lemma_flattened_without(m, plugins.drop_last(), other);
    }
}

/// Replacing one plugin's servers leaves every other plugin's alone, and replacing them
/// with none removes the plugin.
pub proof fn replacing_is_per_plugin(
    m: Map<Seq<char>, Seq<RegistrationView>>,
    plugin: Seq<char>,
    list: Seq<RegistrationView>,
    other: Seq<char>,
)
    requires
        other != plugin,
    ensures
        of_plugin(replaced(m, plugin, list), plugin) == list,
        of_plugin(replaced(m, plugin, list), other) == of_plugin(m, other),
        list.len() == 0 ==> !replaced(m, plugin, list).dom().contains(plugin),
        of_plugin(m.remove(plugin), plugin) == Seq::<RegistrationView>::empty(),
        of_plugin(m.remove(plugin), other) == of_plugin(m, other),
{
    if list.len() == 0 {
        assert(list =~= Seq::<RegistrationView>::empty());
    }
}

/// The registrations that a plugin declares.
pub open spec fn declared(plugin: Plugin) -> Seq<RegistrationView> {
    Seq::new(
        plugin.mcp_configs.keys().len(),
        |i: int|
            RegistrationView {
                plugin_id: plugin.id@,
                server_name: plugin.mcp_configs.keys()[i],
                spec: config_view(plugin.mcp_configs@[plugin.mcp_configs.keys()[i]]),
            },
    )
}

/// The registrations that a plugin declares, server by server.
pub fn declared_servers(plugin: &Plugin) -> (out: Vec<McpRegistration>)
    ensures
        registrations_view(out@) == declared(*plugin),
{
    let mut out: Vec<McpRegistration> = Vec::new();
    let n: usize = plugin.mcp_configs.len();
    let mut i: usize = 0;
    while i < n
        invariant
            0 <= i <= n,
            n == plugin.mcp_configs.keys().len(),
            registrations_view(out@) =~= declared(*plugin).take(i as int),
        decreases n - i,
    {
        let ghost now = registrations_view(out@);
        out.push(
            McpRegistration {
                plugin_id: plugin.id.clone(),
                server_name: plugin.mcp_configs.key_at(i).to_owned(),
                spec: McpServerSpec::from_plugin_config(plugin.mcp_configs.value_at(i)),
            },
        );
        assert(registrations_view(out@) =~= now.push(declared(*plugin)[i as int]));
        i += 1;
    }
    out
}

/// A registry once every plugin of a list has been wired, in order.
pub open spec fn wired(
    m: Map<Seq<char>, Seq<RegistrationView>>,
    plugins: Seq<Plugin>,
) -> Map<Seq<char>, Seq<RegistrationView>>
    decreases plugins.len(),
{
    if plugins.len() == 0 {
        m
    } else {
        replaced(
            wired(m, plugins.drop_last()),
            plugins.last().id@,
            declared(plugins.last()),
        )
    }
}

/// Registers every MCP server that the plugins declare. A plugin that was registered
/// before has its servers replaced.
pub fn wire_plugins(registry: &mut PluginMcpRegistry, plugins: &Vec<Plugin>)
    ensures
        final(registry)@ == wired(old(registry)@, plugins@),
{
    let ghost before = registry@;
    let mut i: usize = 0;
    assert(plugins@.take(0) =~= seq![]);
    while i < plugins.len()
        invariant
            0 <= i <= plugins@.len(),
            registry@ == wired(before, plugins@.take(i as int)),
        decreases plugins@.len() - i,
    {
        assert(plugins@.take(i + 1).drop_last() =~= plugins@.take(i as int));
        registry.replace_plugin(plugins[i].id.as_str(), declared_servers(&plugins[i]));
        i += 1;
    }
    assert(plugins@.take(i as int) =~= plugins@);
}

/// The last plugin with an id is the one at `i`.
pub open spec fn is_last_with(plugins: Seq<Plugin>, id: Seq<char>, i: int) -> bool {
    &&& 0 <= i < plugins.len()
    &&& plugins[i].id@ == id
    &&& forall|j: int| i < j < plugins.len() ==> (#[trigger] plugins[j]).id@ != id
}

/// Once plugins are wired, each id has what the last plugin with it declares and nothing it
/// had before, and an id that no plugin has keeps what it had.
pub proof fn wiring_is_per_plugin(
    m: Map<Seq<char>, Seq<RegistrationView>>,
    plugins: Seq<Plugin>,
    id: Seq<char>,
)
    ensures
        forall|i: int| #[trigger]
            is_last_with(plugins, id, i) ==> of_plugin(wired(m, plugins), id) == declared(
                plugins[i],
            ),
        (forall|j: int| 0 <= j < plugins.len() ==> (#[trigger] plugins[j]).id@ != id) ==> of_plugin(
            wired(m, plugins),
            id,
        ) == of_plugin(m, id),
    decreases plugins.len(),
{
    if plugins.len() > 0 {
        let rest = plugins.drop_last();
        let last = plugins.last();
        wiring_is_per_plugin(m, rest, id);
        if last.id@ != id {
            replacing_is_per_plugin(wired(m, rest), last.id@, declared(last), id);
            assert forall|i: int| is_last_with(plugins, id, i) implies is_last_with(rest, id, i) by {
                assert forall|j: int| i < j < rest.len() implies (#[trigger] rest[j]).id@ != id by {
                    assert(plugins[j].id@ != id);
                }
            }
            assert forall|i: int| #[trigger] is_last_with(plugins, id, i) implies of_plugin(
                wired(m, plugins),
                id,
            ) == declared(plugins[i]) by {
                assert(is_last_with(rest, id, i));
            }
            if forall|j: int| 0 <= j < plugins.len() ==> (#[trigger] plugins[j]).id@ != id {
                assert forall|j: int| 0 <= j < rest.len() implies (#[trigger] rest[j]).id@ != id by {
                    assert(plugins[j].id@ != id);
                }
            }
        } else {
            assert(plugins[plugins.len() - 1].id@ == id);
            if declared(last).len() == 0 {
                assert(declared(last) =~= seq![]);
            }
        }
    }
}

/// Wiring a plugin again leaves the registry as one wiring does.
pub proof fn wiring_twice_is_wiring_once(
    m: Map<Seq<char>, Seq<RegistrationView>>,
    plugin: Plugin,
)
    ensures
        wired(m, seq![plugin, plugin]) == wired(m, seq![plugin]),
{
    reveal_with_fuel(wired, 3);
    assert(seq![plugin, plugin].drop_last() =~= seq![plugin]);
    assert(seq![plugin].drop_last() =~= seq![]);
    assert(wired(m, seq![plugin, plugin]) =~= wired(m, seq![plugin]));
}

/// A server is registered as it is declared: its command, arguments, environment, transport and
/// address are those of the declaration.
pub proof fn servers_are_registered_as_declared(cfg: McpServerConfig)
    ensures
        config_view(cfg).command == text::opt_view(cfg.command),
        config_view(cfg).args == text::views(cfg.args@),
        config_view(cfg).env == string_map::text_map(cfg.env@),
        config_view(cfg).transport == cfg.transport@,
        config_view(cfg).url == text::opt_view(cfg.url),
{
}

/// Every server that a plugin declares is registered under the plugin and the server's name.
pub proof fn every_declared_server_is_registered(plugin: Plugin, i: int)
    requires
        0 <= i < plugin.mcp_configs.keys().len(),
    ensures
        declared(plugin).len() == plugin.mcp_configs.keys().len(),
        declared(plugin)[i].plugin_id == plugin.id@,
        declared(plugin)[i].server_name == plugin.mcp_configs.keys()[i],
        declared(plugin)[i].spec.command == text::opt_view(
            plugin.mcp_configs@[plugin.mcp_configs.keys()[i]].command,
        ),
        declared(plugin)[i].spec.url == text::opt_view(
            plugin.mcp_configs@[plugin.mcp_configs.keys()[i]].url,
        ),
{
}

/// Every registration of every plugin is among all of them.
pub proof fn all_hold_those_of_every_plugin(
    m: Map<Seq<char>, Seq<RegistrationView>>,
    plugins: Seq<Seq<char>>,
    i: int,
    k: int,
)
    requires
        0 <= i < plugins.len(),
        0 <= k < m[plugins[i]].len(),
    ensures
        flattened(m, plugins).contains(m[plugins[i]][k]),
    decreases plugins.len(),
{
    let all = flattened(m, plugins);
    let before = flattened(m, plugins.drop_last());
    if i == plugins.len() - 1 {
        assert(all[before.len() + k] == m[plugins[i]][k]);
    } else {
        all_hold_those_of_every_plugin(m, plugins.drop_last(), i, k);
        let x = m[plugins[i]][k];
        assert(plugins.drop_last()[i] == plugins[i]);
        let j = choose|j: int| 0 <= j < before.len() && before[j] == x;
        assert(all[j] == x);
    }
}

} // verus!
