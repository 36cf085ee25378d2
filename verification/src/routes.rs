//! The routes of the dashboard.

use vstd::prelude::*;

verus! {

/// The method of a request.
#[derive(Clone, Copy, Debug, PartialEq, Eq, Structural)]
pub enum Method {
    Get,
    Post,
    Patch,
    Delete,
}

/// What answers a request.
#[derive(Clone, Copy, Debug, PartialEq, Eq, Structural)]
pub enum Handler {
    Dashboard,
    ListChains,
    BootstrapChain,
    DeleteChain,
    ChainThoughts,
    GetThought,
    AgentThoughts,
    ListAgents,
    ChainAgents,
    GetAgent,
    PatchAgent,
    RevokeAgent,
    ActivateAgent,
    AddAgentKey,
    DeleteAgentKey,
    ListSkills,
    GetSkill,
    SkillVersions,
    SkillDiff,
    RevokeSkill,
    DeprecateSkill,
    LoginPage,
    Login,
}

/// A method and a path, and what answers them. A name in braces stands for any
/// segment of the path.
pub struct Route {
    pub method: Method,
    pub path: &'static str,
    pub handler: Handler,
    /// Whether a request has to carry the PIN, once one is set.
    pub guarded: bool,
}

/// The routes of the dashboard.
pub open spec fn route_table() -> Seq<Route> {
    seq![
        Route {
            method: Method::Get,
            path: "/dashboard",
            handler: Handler::Dashboard,
            guarded: true,
        },
        Route {
            method: Method::Get,
            path: "/dashboard/",
            handler: Handler::Dashboard,
            guarded: true,
        },
        Route {
            method: Method::Get,
            path: "/dashboard/api/chains",
            handler: Handler::ListChains,
            guarded: true,
        },
        Route {
            method: Method::Post,
            path: "/dashboard/api/chains",
            handler: Handler::BootstrapChain,
            guarded: true,
        },
        Route {
            method: Method::Delete,
            path: "/dashboard/api/chains/{chain_key}",
            handler: Handler::DeleteChain,
            guarded: true,
        },
        Route {
            method: Method::Get,
            path: "/dashboard/api/chains/{chain_key}/thoughts",
            handler: Handler::ChainThoughts,
            guarded: true,
        },
        Route {
            method: Method::Get,
            path: "/dashboard/api/thoughts/{chain_key}/{thought_id}",
            handler: Handler::GetThought,
            guarded: true,
        },
        Route {
            method: Method::Get,
            path: "/dashboard/api/chains/{chain_key}/agents/{agent_id}/thoughts",
            handler: Handler::AgentThoughts,
            guarded: true,
        },
        Route {
            method: Method::Get,
            path: "/dashboard/api/agents",
            handler: Handler::ListAgents,
            guarded: true,
        },
        Route {
            method: Method::Get,
            path: "/dashboard/api/agents/{chain_key}",
            handler: Handler::ChainAgents,
            guarded: true,
        },
        Route {
            method: Method::Get,
            path: "/dashboard/api/agents/{chain_key}/{agent_id}",
            handler: Handler::GetAgent,
            guarded: true,
        },
        Route {
            method: Method::Patch,
            path: "/dashboard/api/agents/{chain_key}/{agent_id}",
            handler: Handler::PatchAgent,
            guarded: true,
        },
        Route {
            method: Method::Post,
            path: "/dashboard/api/agents/{chain_key}/{agent_id}/revoke",
            handler: Handler::RevokeAgent,
            guarded: true,
        },
        Route {
            method: Method::Post,
            path: "/dashboard/api/agents/{chain_key}/{agent_id}/activate",
            handler: Handler::ActivateAgent,
            guarded: true,
        },
        Route {
            method: Method::Post,
            path: "/dashboard/api/agents/{chain_key}/{agent_id}/keys",
            handler: Handler::AddAgentKey,
            guarded: true,
        },
        Route {
            method: Method::Delete,
            path: "/dashboard/api/agents/{chain_key}/{agent_id}/keys/{key_id}",
            handler: Handler::DeleteAgentKey,
            guarded: true,
        },
        Route {
            method: Method::Get,
            path: "/dashboard/api/skills",
            handler: Handler::ListSkills,
            guarded: true,
        },
        Route {
            method: Method::Get,
            path: "/dashboard/api/skills/{skill_id}",
            handler: Handler::GetSkill,
            guarded: true,
        },
        Route {
            method: Method::Get,
            path: "/dashboard/api/skills/{skill_id}/versions",
            handler: Handler::SkillVersions,
            guarded: true,
        },
        Route {
            method: Method::Get,
            path: "/dashboard/api/skills/{skill_id}/diff",
            handler: Handler::SkillDiff,
            guarded: true,
        },
        Route {
            method: Method::Post,
            path: "/dashboard/api/skills/{skill_id}/revoke",
            handler: Handler::RevokeSkill,
            guarded: true,
        },
        Route {
            method: Method::Post,
            path: "/dashboard/api/skills/{skill_id}/deprecate",
            handler: Handler::DeprecateSkill,
            guarded: true,
        },
        Route {
            method: Method::Get,
            path: "/dashboard/login",
            handler: Handler::LoginPage,
            guarded: false,
        },
        Route {
            method: Method::Post,
            path: "/dashboard/login",
            handler: Handler::Login,
            guarded: false,
        },
    ]
}

/// Whether a method and a path are answered by a handler, with the PIN or without.
pub open spec fn answered(
    routes: Seq<Route>,
    method: Method,
    path: Seq<char>,
    handler: Handler,
    guarded: bool,
) -> bool {
    exists|i: int|
        {
            &&& 0 <= i < routes.len()
            &&& (#[trigger] routes[i]).method == method
            &&& routes[i].path@ == path
            &&& routes[i].handler == handler
            &&& routes[i].guarded == guarded
        }
}

/// The routes of the dashboard.
pub fn dashboard_routes() -> (r: [Route; 24])
    ensures
        r@ == route_table(),
        answered(r@, Method::Get, "/dashboard"@, Handler::Dashboard, true),
        answered(r@, Method::Get, "/dashboard/"@, Handler::Dashboard, true),
        answered(r@, Method::Get, "/dashboard/api/chains"@, Handler::ListChains, true),
        answered(r@, Method::Post, "/dashboard/api/chains"@, Handler::BootstrapChain, true),
        answered(
            r@,
            Method::Delete,
            "/dashboard/api/chains/{chain_key}"@,
            Handler::DeleteChain,
            true,
        ),
        answered(
            r@,
            Method::Get,
            "/dashboard/api/chains/{chain_key}/thoughts"@,
            Handler::ChainThoughts,
            true,
        ),
        answered(
            r@,
            Method::Get,
            "/dashboard/api/thoughts/{chain_key}/{thought_id}"@,
            Handler::GetThought,
            true,
        ),
        answered(
            r@,
            Method::Get,
            "/dashboard/api/chains/{chain_key}/agents/{agent_id}/thoughts"@,
            Handler::AgentThoughts,
            true,
        ),
        answered(r@, Method::Get, "/dashboard/api/agents"@, Handler::ListAgents, true),
        answered(r@, Method::Get, "/dashboard/api/agents/{chain_key}"@, Handler::ChainAgents, true),
        answered(
            r@,
            Method::Get,
            "/dashboard/api/agents/{chain_key}/{agent_id}"@,
            Handler::GetAgent,
            true,
        ),
        answered(
            r@,
            Method::Patch,
            "/dashboard/api/agents/{chain_key}/{agent_id}"@,
            Handler::PatchAgent,
            true,
        ),
        answered(
            r@,
            Method::Post,
            "/dashboard/api/agents/{chain_key}/{agent_id}/revoke"@,
            Handler::RevokeAgent,
            true,
        ),
        answered(
            r@,
            Method::Post,
            "/dashboard/api/agents/{chain_key}/{agent_id}/activate"@,
            Handler::ActivateAgent,
            true,
        ),
        answered(
            r@,
            Method::Post,
            "/dashboard/api/agents/{chain_key}/{agent_id}/keys"@,
            Handler::AddAgentKey,
            true,
        ),
        answered(
            r@,
            Method::Delete,
            "/dashboard/api/agents/{chain_key}/{agent_id}/keys/{key_id}"@,
            Handler::DeleteAgentKey,
            true,
        ),
        answered(r@, Method::Get, "/dashboard/api/skills"@, Handler::ListSkills, true),
        answered(r@, Method::Get, "/dashboard/api/skills/{skill_id}"@, Handler::GetSkill, true),
        answered(
            r@,
            Method::Get,
            "/dashboard/api/skills/{skill_id}/versions"@,
            Handler::SkillVersions,
            true,
        ),
        answered(
            r@,
            Method::Get,
            "/dashboard/api/skills/{skill_id}/diff"@,
            Handler::SkillDiff,
            true,
        ),
        answered(
            r@,
            Method::Post,
            "/dashboard/api/skills/{skill_id}/revoke"@,
            Handler::RevokeSkill,
            true,
        ),
        answered(
            r@,
            Method::Post,
            "/dashboard/api/skills/{skill_id}/deprecate"@,
            Handler::DeprecateSkill,
            true,
        ),
        answered(r@, Method::Get, "/dashboard/login"@, Handler::LoginPage, false),
        answered(r@, Method::Post, "/dashboard/login"@, Handler::Login, false),
{
    let r: [Route; 24] = [
        Route {
            method: Method::Get,
            path: "/dashboard",
            handler: Handler::Dashboard,
            guarded: true,
        },
        Route {
            method: Method::Get,
            path: "/dashboard/",
            handler: Handler::Dashboard,
            guarded: true,
        },
        Route {
            method: Method::Get,
            path: "/dashboard/api/chains",
            handler: Handler::ListChains,
            guarded: true,
        },
        Route {
            method: Method::Post,
            path: "/dashboard/api/chains",
            handler: Handler::BootstrapChain,
            guarded: true,
        },
        Route {
            method: Method::Delete,
            path: "/dashboard/api/chains/{chain_key}",
            handler: Handler::DeleteChain,
            guarded: true,
        },
        Route {
            method: Method::Get,
            path: "/dashboard/api/chains/{chain_key}/thoughts",
            handler: Handler::ChainThoughts,
            guarded: true,
        },
        Route {
            method: Method::Get,
            path: "/dashboard/api/thoughts/{chain_key}/{thought_id}",
            handler: Handler::GetThought,
            guarded: true,
        },
        Route {
            method: Method::Get,
            path: "/dashboard/api/chains/{chain_key}/agents/{agent_id}/thoughts",
            handler: Handler::AgentThoughts,
            guarded: true,
        },
        Route {
            method: Method::Get,
            path: "/dashboard/api/agents",
            handler: Handler::ListAgents,
            guarded: true,
        },
        Route {
            method: Method::Get,
            path: "/dashboard/api/agents/{chain_key}",
            handler: Handler::ChainAgents,
            guarded: true,
        },
        Route {
            method: Method::Get,
            path: "/dashboard/api/agents/{chain_key}/{agent_id}",
            handler: Handler::GetAgent,
            guarded: true,
        },
        Route {
            method: Method::Patch,
            path: "/dashboard/api/agents/{chain_key}/{agent_id}",
            handler: Handler::PatchAgent,
            guarded: true,
        },
        Route {
            method: Method::Post,
            path: "/dashboard/api/agents/{chain_key}/{agent_id}/revoke",
            handler: Handler::RevokeAgent,
            guarded: true,
        },
        Route {
            method: Method::Post,
            path: "/dashboard/api/agents/{chain_key}/{agent_id}/activate",
            handler: Handler::ActivateAgent,
            guarded: true,
        },
        Route {
            method: Method::Post,
            path: "/dashboard/api/agents/{chain_key}/{agent_id}/keys",
            handler: Handler::AddAgentKey,
            guarded: true,
        },
        Route {
            method: Method::Delete,
            path: "/dashboard/api/agents/{chain_key}/{agent_id}/keys/{key_id}",
            handler: Handler::DeleteAgentKey,
            guarded: true,
        },
        Route {
            method: Method::Get,
            path: "/dashboard/api/skills",
            handler: Handler::ListSkills,
            guarded: true,
        },
        Route {
            method: Method::Get,
            path: "/dashboard/api/skills/{skill_id}",
            handler: Handler::GetSkill,
            guarded: true,
        },
        Route {
            method: Method::Get,
            path: "/dashboard/api/skills/{skill_id}/versions",
            handler: Handler::SkillVersions,
            guarded: true,
        },
        Route {
            method: Method::Get,
            path: "/dashboard/api/skills/{skill_id}/diff",
            handler: Handler::SkillDiff,
            guarded: true,
        },
        Route {
            method: Method::Post,
            path: "/dashboard/api/skills/{skill_id}/revoke",
            handler: Handler::RevokeSkill,
            guarded: true,
        },
        Route {
            method: Method::Post,
            path: "/dashboard/api/skills/{skill_id}/deprecate",
            handler: Handler::DeprecateSkill,
            guarded: true,
        },
        Route {
            method: Method::Get,
            path: "/dashboard/login",
            handler: Handler::LoginPage,
            guarded: false,
        },
        Route {
            method: Method::Post,
            path: "/dashboard/login",
            handler: Handler::Login,
            guarded: false,
        },
    ];
    assert(r@ =~= route_table());
    proof {
        law_requests_reach_their_handlers();
    }
    r
}

/// What tells the paths of the routes apart: their lengths, and a letter of those that
/// are equally long.
proof fn lemma_paths()
    ensures
        "/dashboard"@.len() == 10,
        "/dashboard/"@.len() == 11,
        "/dashboard/api/agents"@.len() == 21 && "/dashboard/api/agents"@[15] == 'a',
        "/dashboard/api/agents/{chain_key}"@.len() == 33,
        "/dashboard/api/agents/{chain_key}/{agent_id}"@.len() == 44,
        "/dashboard/api/agents/{chain_key}/{agent_id}/activate"@.len() == 53,
        "/dashboard/api/agents/{chain_key}/{agent_id}/keys"@.len() == 49,
        "/dashboard/api/agents/{chain_key}/{agent_id}/keys/{key_id}"@.len() == 58,
        "/dashboard/api/agents/{chain_key}/{agent_id}/revoke"@.len() == 51,
        "/dashboard/api/chains"@.len() == 21 && "/dashboard/api/chains"@[15] == 'c',
        "/dashboard/api/chains/{chain_key}"@.len() == 33,
        "/dashboard/api/chains/{chain_key}/agents/{agent_id}/thoughts"@.len() == 60,
        "/dashboard/api/chains/{chain_key}/thoughts"@.len() == 42,
        "/dashboard/api/skills"@.len() == 21 && "/dashboard/api/skills"@[15] == 's',
        "/dashboard/api/skills/{skill_id}"@.len() == 32,
        "/dashboard/api/skills/{skill_id}/deprecate"@.len() == 42,
        "/dashboard/api/skills/{skill_id}/diff"@.len() == 37,
        "/dashboard/api/skills/{skill_id}/revoke"@.len() == 39,
        "/dashboard/api/skills/{skill_id}/versions"@.len() == 41,
        "/dashboard/api/thoughts/{chain_key}/{thought_id}"@.len() == 48,
        "/dashboard/login"@.len() == 16,
{
    reveal_strlit("/dashboard");
    reveal_strlit("/dashboard/");
    reveal_strlit("/dashboard/api/agents");
    reveal_strlit("/dashboard/api/agents/{chain_key}");
    reveal_strlit("/dashboard/api/agents/{chain_key}/{agent_id}");
    reveal_strlit("/dashboard/api/agents/{chain_key}/{agent_id}/activate");
    reveal_strlit("/dashboard/api/agents/{chain_key}/{agent_id}/keys");
    reveal_strlit("/dashboard/api/agents/{chain_key}/{agent_id}/keys/{key_id}");
    reveal_strlit("/dashboard/api/agents/{chain_key}/{agent_id}/revoke");
    reveal_strlit("/dashboard/api/chains");
    reveal_strlit("/dashboard/api/chains/{chain_key}");
    reveal_strlit("/dashboard/api/chains/{chain_key}/agents/{agent_id}/thoughts");
    reveal_strlit("/dashboard/api/chains/{chain_key}/thoughts");
    reveal_strlit("/dashboard/api/skills");
    reveal_strlit("/dashboard/api/skills/{skill_id}");
    reveal_strlit("/dashboard/api/skills/{skill_id}/deprecate");
    reveal_strlit("/dashboard/api/skills/{skill_id}/diff");
    reveal_strlit("/dashboard/api/skills/{skill_id}/revoke");
    reveal_strlit("/dashboard/api/skills/{skill_id}/versions");
    reveal_strlit("/dashboard/api/thoughts/{chain_key}/{thought_id}");
    reveal_strlit("/dashboard/login");
}

/// Only the login page and the login itself are open to requests without the PIN.
pub proof fn law_only_the_login_is_open(i: int)
    requires
        0 <= i < route_table().len(),
    ensures
        !route_table()[i].guarded <==> route_table()[i].handler == Handler::LoginPage
            || route_table()[i].handler == Handler::Login,
        !route_table()[i].guarded <==> route_table()[i].path@ == crate::auth::LOGIN_PATH@,
{
    lemma_paths();
}

/// No two routes answer the same method and path.
pub proof fn law_routes_are_distinct(i: int, j: int)
    requires
        0 <= i < j < route_table().len(),
    ensures
        route_table()[i].method != route_table()[j].method || route_table()[i].path@
            != route_table()[j].path@,
{
    lemma_paths();
}

/// Each request of the dashboard reaches the handler that it names: what is read is
/// read, what is revoked is revoked, what is activated is activated.
pub proof fn law_requests_reach_their_handlers()
    ensures
        route_table().len() == 24,
        answered(route_table(), Method::Get, "/dashboard"@, Handler::Dashboard, true),
        answered(route_table(), Method::Get, "/dashboard/"@, Handler::Dashboard, true),
        answered(route_table(), Method::Get, "/dashboard/api/chains"@, Handler::ListChains, true),
        answered(
            route_table(),
            Method::Post,
            "/dashboard/api/chains"@,
            Handler::BootstrapChain,
            true,
        ),
        answered(
            route_table(),
            Method::Delete,
            "/dashboard/api/chains/{chain_key}"@,
            Handler::DeleteChain,
            true,
        ),
        answered(
            route_table(),
            Method::Get,
            "/dashboard/api/chains/{chain_key}/thoughts"@,
            Handler::ChainThoughts,
            true,
        ),
        answered(
            route_table(),
            Method::Get,
            "/dashboard/api/thoughts/{chain_key}/{thought_id}"@,
            Handler::GetThought,
            true,
        ),
        answered(
            route_table(),
            Method::Get,
            "/dashboard/api/chains/{chain_key}/agents/{agent_id}/thoughts"@,
            Handler::AgentThoughts,
            true,
        ),
        answered(route_table(), Method::Get, "/dashboard/api/agents"@, Handler::ListAgents, true),
        answered(
            route_table(),
            Method::Get,
            "/dashboard/api/agents/{chain_key}"@,
            Handler::ChainAgents,
            true,
        ),
        answered(
            route_table(),
            Method::Get,
            "/dashboard/api/agents/{chain_key}/{agent_id}"@,
            Handler::GetAgent,
            true,
        ),
        answered(
            route_table(),
            Method::Patch,
            "/dashboard/api/agents/{chain_key}/{agent_id}"@,
            Handler::PatchAgent,
            true,
        ),
        answered(
            route_table(),
            Method::Post,
            "/dashboard/api/agents/{chain_key}/{agent_id}/revoke"@,
            Handler::RevokeAgent,
            true,
        ),
        answered(
            route_table(),
            Method::Post,
            "/dashboard/api/agents/{chain_key}/{agent_id}/activate"@,
            Handler::ActivateAgent,
            true,
        ),
        answered(
            route_table(),
            Method::Post,
            "/dashboard/api/agents/{chain_key}/{agent_id}/keys"@,
            Handler::AddAgentKey,
            true,
        ),
        answered(
            route_table(),
            Method::Delete,
            "/dashboard/api/agents/{chain_key}/{agent_id}/keys/{key_id}"@,
            Handler::DeleteAgentKey,
            true,
        ),
        answered(route_table(), Method::Get, "/dashboard/api/skills"@, Handler::ListSkills, true),
        answered(
            route_table(),
            Method::Get,
            "/dashboard/api/skills/{skill_id}"@,
            Handler::GetSkill,
            true,
        ),
        answered(
            route_table(),
            Method::Get,
            "/dashboard/api/skills/{skill_id}/versions"@,
            Handler::SkillVersions,
            true,
        ),
        answered(
            route_table(),
            Method::Get,
            "/dashboard/api/skills/{skill_id}/diff"@,
            Handler::SkillDiff,
            true,
        ),
        answered(
            route_table(),
            Method::Post,
            "/dashboard/api/skills/{skill_id}/revoke"@,
            Handler::RevokeSkill,
            true,
        ),
        answered(
            route_table(),
            Method::Post,
            "/dashboard/api/skills/{skill_id}/deprecate"@,
            Handler::DeprecateSkill,
            true,
        ),
        answered(route_table(), Method::Get, "/dashboard/login"@, Handler::LoginPage, false),
        answered(route_table(), Method::Post, "/dashboard/login"@, Handler::Login, false),
{
    let table = route_table();
    assert(table[0].handler == Handler::Dashboard);
    assert(table[1].handler == Handler::Dashboard);
    assert(table[2].handler == Handler::ListChains);
    assert(table[3].handler == Handler::BootstrapChain);
    assert(table[4].handler == Handler::DeleteChain);
    assert(table[5].handler == Handler::ChainThoughts);
    assert(table[6].handler == Handler::GetThought);
    assert(table[7].handler == Handler::AgentThoughts);
    assert(table[8].handler == Handler::ListAgents);
    assert(table[9].handler == Handler::ChainAgents);
    assert(table[10].handler == Handler::GetAgent);
    assert(table[11].handler == Handler::PatchAgent);
    assert(table[12].handler == Handler::RevokeAgent);
    assert(table[13].handler == Handler::ActivateAgent);
    assert(table[14].handler == Handler::AddAgentKey);
    assert(table[15].handler == Handler::DeleteAgentKey);
    assert(table[16].handler == Handler::ListSkills);
    assert(table[17].handler == Handler::GetSkill);
    assert(table[18].handler == Handler::SkillVersions);
    assert(table[19].handler == Handler::SkillDiff);
    assert(table[20].handler == Handler::RevokeSkill);
    assert(table[21].handler == Handler::DeprecateSkill);
    assert(table[22].handler == Handler::LoginPage);
    assert(table[23].handler == Handler::Login);
}

/// A method and a path are answered by one handler only.
pub proof fn law_requests_reach_one_handler(
    method: Method,
    path: Seq<char>,
    a: Handler,
    b: Handler,
    with_pin: bool,
    without_pin: bool,
)
    requires
        answered(route_table(), method, path, a, with_pin),
        answered(route_table(), method, path, b, without_pin),
    ensures
        a == b,
        with_pin == without_pin,
{
    let table = route_table();
    let i = choose|i: int|
        {
            &&& 0 <= i < table.len()
            &&& (#[trigger] table[i]).method == method
            &&& table[i].path@ == path
            &&& table[i].handler == a
            &&& table[i].guarded == with_pin
        };
    let j = choose|j: int|
        {
            &&& 0 <= j < table.len()
            &&& (#[trigger] table[j]).method == method
            &&& table[j].path@ == path
            &&& table[j].handler == b
            &&& table[j].guarded == without_pin
        };
    if i < j {
        law_routes_are_distinct(i, j);
    } else if j < i {
        law_routes_are_distinct(j, i);
    }
}

} // verus!
