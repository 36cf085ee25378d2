//! The catalog of endpoints, and the tip about certificates.

use crate::paint::{painted, painted_text, GREEN, YELLOW};
use crate::text::{decimal, decimal_text, opt_str, push_line, texts};
use vstd::prelude::*;
use vstd::string::*;

verus! {

/// An endpoint of a server.
pub struct Endpoint {
    /// Whether it is read with `GET`; otherwise it is asked with `POST`.
    pub get: bool,
    /// The path behind the address of the server.
    pub path: &'static str,
    /// What it is for.
    pub about: &'static str,
}

/// What the health check of the REST server is for.
pub const REST_HEALTH: &'static str = "Health check for the REST surface.";

/// What the health check of the REST server over TLS is for.
pub const HTTPS_REST_HEALTH: &'static str = "Health check for the HTTPS REST surface.";

/// The endpoints of the MCP server.
pub open spec fn mcp_catalog() -> Seq<Endpoint> {
    seq![
        Endpoint { get: false, path: "", about: "Standard streamable HTTP MCP root endpoint." },
        Endpoint { get: true, path: "/health", about: "Health check for the MCP surface." },
        Endpoint {
            get: false,
            path: "/tools/list",
            about: "Legacy CloudLLM-compatible MCP tool discovery.",
        },
        Endpoint {
            get: false,
            path: "/tools/execute",
            about: "Legacy CloudLLM-compatible MCP tool execution.",
        },
    ]
}

/// The endpoints of the MCP server over TLS.
pub open spec fn https_mcp_catalog() -> Seq<Endpoint> {
    seq![
        Endpoint { get: false, path: "", about: "Streamable HTTP MCP root endpoint over TLS." },
        Endpoint { get: true, path: "/health", about: "Health check for the HTTPS MCP surface." },
        Endpoint {
            get: false,
            path: "/tools/list",
            about: "Legacy CloudLLM-compatible MCP tool discovery (HTTPS).",
        },
        Endpoint {
            get: false,
            path: "/tools/execute",
            about: "Legacy CloudLLM-compatible MCP tool execution (HTTPS).",
        },
    ]
}

/// The endpoints of the REST server, over TLS or not, behind the health check.
pub open spec fn rest_catalog() -> Seq<Endpoint> {
    seq![
        Endpoint {
            get: true,
            path: "/v1/chains",
            about: "List chains with version, adapter, counts, and storage location.",
        },
        Endpoint {
            get: false,
            path: "/v1/agents",
            about: "List agent identity summaries for one chain.",
        },
        Endpoint { get: false, path: "/v1/agent", about: "Return one full agent registry record." },
        Endpoint {
            get: false,
            path: "/v1/agent-registry",
            about: "Return the full agent registry for one chain.",
        },
        Endpoint {
            get: false,
            path: "/v1/agents/upsert",
            about: "Create or update an agent registry record.",
        },
        Endpoint {
            get: false,
            path: "/v1/agents/description",
            about: "Set or clear one agent description.",
        },
        Endpoint {
            get: false,
            path: "/v1/agents/aliases",
            about: "Add one alias to a registered agent.",
        },
        Endpoint {
            get: false,
            path: "/v1/agents/keys",
            about: "Add or replace one agent public key.",
        },
        Endpoint {
            get: false,
            path: "/v1/agents/keys/revoke",
            about: "Revoke one agent public key.",
        },
        Endpoint { get: false, path: "/v1/agents/disable", about: "Disable one registered agent." },
        Endpoint {
            get: true,
            path: "/mentisdb_skill_md",
            about: "Return the embedded official MentisDB skill Markdown.",
        },
        Endpoint {
            get: true,
            path: "/v1/skills",
            about: "List uploaded skill summaries from the registry.",
        },
        Endpoint {
            get: true,
            path: "/v1/skills/manifest",
            about: "Describe searchable fields and supported skill formats.",
        },
        Endpoint {
            get: false,
            path: "/v1/skills/upload",
            about: "Upload a new immutable skill version.",
        },
        Endpoint {
            get: false,
            path: "/v1/skills/search",
            about: "Search skills by metadata, uploader identity, and time window.",
        },
        Endpoint {
            get: false,
            path: "/v1/skills/read",
            about: "Read one stored skill as Markdown or JSON with safety warnings.",
        },
        Endpoint {
            get: false,
            path: "/v1/skills/versions",
            about: "List immutable uploaded versions for one skill.",
        },
        Endpoint {
            get: false,
            path: "/v1/skills/deprecate",
            about: "Mark one skill as deprecated.",
        },
        Endpoint { get: false, path: "/v1/skills/revoke", about: "Mark one skill as revoked." },
        Endpoint {
            get: false,
            path: "/v1/bootstrap",
            about: "Bootstrap an empty chain with an initial checkpoint.",
        },
        Endpoint { get: false, path: "/v1/thoughts", about: "Append a durable thought." },
        Endpoint {
            get: false,
            path: "/v1/retrospectives",
            about: "Append a retrospective thought.",
        },
        Endpoint {
            get: false,
            path: "/v1/search",
            about: "Search thoughts by semantic and identity filters.",
        },
        Endpoint {
            get: false,
            path: "/v1/recent-context",
            about: "Render a recent-context prompt snippet.",
        },
        Endpoint {
            get: false,
            path: "/v1/memory-markdown",
            about: "Export a MEMORY.md-style markdown view.",
        },
        Endpoint {
            get: false,
            path: "/v1/thought",
            about: "Read one thought by id, hash, or append-order index.",
        },
        Endpoint {
            get: false,
            path: "/v1/thoughts/genesis",
            about: "Return the first thought in append order.",
        },
        Endpoint {
            get: false,
            path: "/v1/thoughts/traverse",
            about: "Traverse thoughts forward or backward in filtered chunks.",
        },
        Endpoint {
            get: false,
            path: "/v1/head",
            about: "Return the latest thought at the chain tip and head metadata.",
        },
    ]
}

/// The two lines about an endpoint: how to reach it, and what it is for.
pub open spec fn endpoint_lines(
    scheme: Seq<char>,
    address: Seq<char>,
    endpoint: Endpoint,
) -> Seq<Seq<char>> {
    seq![
        (if endpoint.get {
            "    GET  "@
        } else {
            "    POST "@
        }) + scheme + address + endpoint.path@,
        "      "@ + endpoint.about@,
    ]
}

/// The lines about several endpoints.
pub open spec fn endpoints_lines(
    scheme: Seq<char>,
    address: Seq<char>,
    endpoints: Seq<Endpoint>,
) -> Seq<Seq<char>>
    decreases endpoints.len(),
{
    if endpoints.len() == 0 {
        Seq::empty()
    } else {
        endpoints_lines(scheme, address, endpoints.drop_last()) + endpoint_lines(
            scheme,
            address,
            endpoints.last(),
        )
    }
}

/// The health check of the REST server.
pub open spec fn rest_health() -> Endpoint {
    Endpoint { get: true, path: "/health", about: REST_HEALTH }
}

/// The health check of the REST server over TLS.
pub open spec fn https_rest_health() -> Endpoint {
    Endpoint { get: true, path: "/health", about: HTTPS_REST_HEALTH }
}

/// The lines of the catalog of endpoints, given the addresses of the servers; those
/// over TLS may be switched off.
pub open spec fn catalog_lines(
    mcp: Seq<char>,
    rest: Seq<char>,
    https_mcp: Option<Seq<char>>,
    https_rest: Option<Seq<char>>,
) -> Seq<Seq<char>> {
    seq![Seq::empty(), "Endpoints:"@, "  MCP"@] + endpoints_lines("http://"@, mcp, mcp_catalog())
        + seq!["  REST"@] + endpoint_lines("http://"@, rest, rest_health()) + endpoints_lines(
        "http://"@,
        rest,
        rest_catalog(),
    ) + seq![Seq::empty()] + (match https_mcp {
        Some(address) => seq!["  HTTPS MCP"@] + endpoints_lines(
            "https://"@,
            address,
            https_mcp_catalog(),
        ),
        None => Seq::empty(),
    }) + (match https_rest {
        Some(address) => seq!["  HTTPS REST"@] + endpoint_lines(
            "https://"@,
            address,
            https_rest_health(),
        ) + endpoints_lines("https://"@, address, rest_catalog()) + seq![Seq::empty()],
        None => Seq::empty(),
    })
}

/// The endpoints of the MCP server.
pub fn mcp_endpoints() -> (r: [Endpoint; 4])
    ensures
        r@ == mcp_catalog(),
{
    let r: [Endpoint; 4] = [
        Endpoint { get: false, path: "", about: "Standard streamable HTTP MCP root endpoint." },
        Endpoint { get: true, path: "/health", about: "Health check for the MCP surface." },
        Endpoint {
            get: false,
            path: "/tools/list",
            about: "Legacy CloudLLM-compatible MCP tool discovery.",
        },
        Endpoint {
            get: false,
            path: "/tools/execute",
            about: "Legacy CloudLLM-compatible MCP tool execution.",
        },
    ];
    assert(r@ =~= mcp_catalog());
    r
}

/// The endpoints of the MCP server over TLS.
pub fn https_mcp_endpoints() -> (r: [Endpoint; 4])
    ensures
        r@ == https_mcp_catalog(),
{
    let r: [Endpoint; 4] = [
        Endpoint { get: false, path: "", about: "Streamable HTTP MCP root endpoint over TLS." },
        Endpoint { get: true, path: "/health", about: "Health check for the HTTPS MCP surface." },
        Endpoint {
            get: false,
            path: "/tools/list",
            about: "Legacy CloudLLM-compatible MCP tool discovery (HTTPS).",
        },
        Endpoint {
            get: false,
            path: "/tools/execute",
            about: "Legacy CloudLLM-compatible MCP tool execution (HTTPS).",
        },
    ];
    assert(r@ =~= https_mcp_catalog());
    r
}

/// The endpoints of the REST server, over TLS or not, behind the health check.
pub fn rest_endpoints() -> (r: [Endpoint; 29])
    ensures
        r@ == rest_catalog(),
{
    let r: [Endpoint; 29] = [
        Endpoint {
            get: true,
            path: "/v1/chains",
            about: "List chains with version, adapter, counts, and storage location.",
        },
        Endpoint {
            get: false,
            path: "/v1/agents",
            about: "List agent identity summaries for one chain.",
        },
        Endpoint { get: false, path: "/v1/agent", about: "Return one full agent registry record." },
        Endpoint {
            get: false,
            path: "/v1/agent-registry",
            about: "Return the full agent registry for one chain.",
        },
        Endpoint {
            get: false,
            path: "/v1/agents/upsert",
            about: "Create or update an agent registry record.",
        },
        Endpoint {
            get: false,
            path: "/v1/agents/description",
            about: "Set or clear one agent description.",
        },
        Endpoint {
            get: false,
            path: "/v1/agents/aliases",
            about: "Add one alias to a registered agent.",
        },
        Endpoint {
            get: false,
            path: "/v1/agents/keys",
            about: "Add or replace one agent public key.",
        },
        Endpoint {
            get: false,
            path: "/v1/agents/keys/revoke",
            about: "Revoke one agent public key.",
        },
        Endpoint { get: false, path: "/v1/agents/disable", about: "Disable one registered agent." },
        Endpoint {
            get: true,
            path: "/mentisdb_skill_md",
            about: "Return the embedded official MentisDB skill Markdown.",
        },
        Endpoint {
            get: true,
            path: "/v1/skills",
            about: "List uploaded skill summaries from the registry.",
        },
        Endpoint {
            get: true,
            path: "/v1/skills/manifest",
            about: "Describe searchable fields and supported skill formats.",
        },
        Endpoint {
            get: false,
            path: "/v1/skills/upload",
            about: "Upload a new immutable skill version.",
        },
        Endpoint {
            get: false,
            path: "/v1/skills/search",
            about: "Search skills by metadata, uploader identity, and time window.",
        },
        Endpoint {
            get: false,
            path: "/v1/skills/read",
            about: "Read one stored skill as Markdown or JSON with safety warnings.",
        },
        Endpoint {
            get: false,
            path: "/v1/skills/versions",
            about: "List immutable uploaded versions for one skill.",
        },
        Endpoint {
            get: false,
            path: "/v1/skills/deprecate",
            about: "Mark one skill as deprecated.",
        },
        Endpoint { get: false, path: "/v1/skills/revoke", about: "Mark one skill as revoked." },
        Endpoint {
            get: false,
            path: "/v1/bootstrap",
            about: "Bootstrap an empty chain with an initial checkpoint.",
        },
        Endpoint { get: false, path: "/v1/thoughts", about: "Append a durable thought." },
        Endpoint {
            get: false,
            path: "/v1/retrospectives",
            about: "Append a retrospective thought.",
        },
        Endpoint {
            get: false,
            path: "/v1/search",
            about: "Search thoughts by semantic and identity filters.",
        },
        Endpoint {
            get: false,
            path: "/v1/recent-context",
            about: "Render a recent-context prompt snippet.",
        },
        Endpoint {
            get: false,
            path: "/v1/memory-markdown",
            about: "Export a MEMORY.md-style markdown view.",
        },
        Endpoint {
            get: false,
            path: "/v1/thought",
            about: "Read one thought by id, hash, or append-order index.",
        },
        Endpoint {
            get: false,
            path: "/v1/thoughts/genesis",
            about: "Return the first thought in append order.",
        },
        Endpoint {
            get: false,
            path: "/v1/thoughts/traverse",
            about: "Traverse thoughts forward or backward in filtered chunks.",
        },
        Endpoint {
            get: false,
            path: "/v1/head",
            about: "Return the latest thought at the chain tip and head metadata.",
        },
    ];
    assert(r@ =~= rest_catalog());
    r
}

/// Adds the lines about an endpoint.
fn push_endpoint(lines: &mut Vec<String>, scheme: &str, address: &str, endpoint: &Endpoint)
    ensures
        texts(final(lines)@) == texts(old(lines)@) + endpoint_lines(scheme@, address@, *endpoint),
{
    let verb = if endpoint.get {
        "    GET  "
    } else {
        "    POST "
    };
    push_line(
        lines,
        verb.to_string().concat(scheme).concat(address).concat(endpoint.path),
    );
    push_line(lines, "      ".to_string().concat(endpoint.about));
    proof {
        assert(texts(lines@) =~= texts(old(lines)@) + endpoint_lines(scheme@, address@, *endpoint));
    }
}

/// Adds the lines about several endpoints.
fn push_endpoints(lines: &mut Vec<String>, scheme: &str, address: &str, endpoints: &[Endpoint])
    ensures
        texts(final(lines)@) == texts(old(lines)@) + endpoints_lines(
            scheme@,
            address@,
            endpoints@,
        ),
{
    let ghost start = texts(lines@);
    let mut i: usize = 0;
    proof {
        assert(endpoints@.take(0) =~= Seq::empty());
        assert(start + endpoints_lines(scheme@, address@, endpoints@.take(0)) =~= start);
    }
    while i < endpoints.len()
        invariant
            i <= endpoints@.len(),
            texts(lines@) == start + endpoints_lines(
                scheme@,
                address@,
                endpoints@.take(i as int),
            ),
        decreases endpoints@.len() - i,
    {
        push_endpoint(lines, scheme, address, &endpoints[i]);
        proof {
            assert(endpoints@.take(i + 1).drop_last() =~= endpoints@.take(i as int));
            assert(texts(lines@) =~= start + endpoints_lines(
                scheme@,
                address@,
                endpoints@.take(i + 1),
            ));
        }
        i = i + 1;
    }
    proof {
        assert(endpoints@.take(i as int) =~= endpoints@);
    }
}

/// The catalog of endpoints, given the addresses of the servers.
pub fn endpoint_catalog(
    mcp: &str,
    rest: &str,
    https_mcp: Option<&str>,
    https_rest: Option<&str>,
) -> (lines: Vec<String>)
    ensures
        texts(lines@) == catalog_lines(mcp@, rest@, opt_str(https_mcp), opt_str(https_rest)),
{
    let mut lines: Vec<String> = Vec::new();
    push_line(&mut lines, String::new());
    push_line(&mut lines, "Endpoints:".to_string());
    push_line(&mut lines, "  MCP".to_string());
    push_endpoints(&mut lines, "http://", mcp, mcp_endpoints().as_slice());
    push_line(&mut lines, "  REST".to_string());
    let health = Endpoint { get: true, path: "/health", about: REST_HEALTH };
    push_endpoint(&mut lines, "http://", rest, &health);
    push_endpoints(&mut lines, "http://", rest, rest_endpoints().as_slice());
    push_line(&mut lines, String::new());
    if let Some(address) = https_mcp {
        push_line(&mut lines, "  HTTPS MCP".to_string());
        push_endpoints(&mut lines, "https://", address, https_mcp_endpoints().as_slice());
    }
    if let Some(address) = https_rest {
        push_line(&mut lines, "  HTTPS REST".to_string());
        let health = Endpoint { get: true, path: "/health", about: HTTPS_REST_HEALTH };
        push_endpoint(&mut lines, "https://", address, &health);
        push_endpoints(&mut lines, "https://", address, rest_endpoints().as_slice());
        push_line(&mut lines, String::new());
    }
    proof {
        assert(texts(lines@) =~= catalog_lines(
            mcp@,
            rest@,
            opt_str(https_mcp),
            opt_str(https_rest),
        ));
    }
    lines
}

/// The line about a server that is reached over TLS under the friendly host name.
pub open spec fn friendly_line(label: Seq<char>, port: Option<u16>) -> Seq<Seq<char>> {
    match port {
        Some(n) => seq![label + "https://my.mentisdb.com:"@ + decimal(n as nat)],
        None => Seq::empty(),
    }
}

/// The lines of the tip about the certificate; there are none unless a server is
/// reached over TLS.
pub open spec fn tls_tip_lines(
    certificate: Seq<char>,
    mcp_port: Option<u16>,
    rest_port: Option<u16>,
) -> Seq<Seq<char>> {
    if mcp_port is None && rest_port is None {
        Seq::empty()
    } else {
        seq![
            "TLS Certificate: "@ + certificate,
            Seq::empty(),
            "  "@ + painted(YELLOW@, "my.mentisdb.com"@)
                + " is a public DNS A-record → 127.0.0.1"@,
            "  You can use it as a friendly hostname for this local daemon."@,
        ] + friendly_line("  MCP:  "@, mcp_port) + friendly_line("  REST: "@, rest_port) + seq![
            Seq::empty(),
            "  To avoid certificate warnings, trust the self-signed cert once:"@,
            "  "@ + painted(GREEN@, "macOS"@)
                + ":   sudo security add-trusted-cert -d -r trustRoot \\"@,
            "             -k /Library/Keychains/System.keychain \\"@,
            "             "@ + certificate,
            "  "@ + painted(GREEN@, "Linux"@) + ":   sudo cp "@ + certificate
                + " /usr/local/share/ca-certificates/mentisdb.crt"@,
            "           sudo update-ca-certificates"@,
            "  "@ + painted(GREEN@, "Windows"@) + ": certutil -addstore Root "@ + certificate,
            Seq::empty(),
        ]
    }
}

/// Adds the line about a server that is reached over TLS.
fn push_friendly(lines: &mut Vec<String>, label: &str, port: Option<u16>)
    ensures
        texts(final(lines)@) == texts(old(lines)@) + friendly_line(label@, port),
{
    if let Some(n) = port {
        push_line(
            lines,
            label.to_string().concat("https://my.mentisdb.com:").concat(
                decimal_text(n as u64).as_str(),
            ),
        );
    }
    proof {
        assert(texts(lines@) =~= texts(old(lines)@) + friendly_line(label@, port));
    }
}

/// The name of an operating system, indented and in green.
fn system_text(name: &str) -> (r: String)
    ensures
        r@ == "  "@ + painted(GREEN@, name@),
{
    "  ".to_string().concat(painted_text(GREEN, name).as_str())
}

/// The tip about the certificate of the servers that are reached over TLS.
pub fn tls_tip(certificate: &str, mcp_port: Option<u16>, rest_port: Option<u16>) -> (lines: Vec<
    String,
>)
    ensures
        texts(lines@) == tls_tip_lines(certificate@, mcp_port, rest_port),
{
    let mut lines: Vec<String> = Vec::new();
    if mcp_port.is_none() && rest_port.is_none() {
        assert(texts(lines@) =~= Seq::empty());
        return lines;
    }
    push_line(&mut lines, "TLS Certificate: ".to_string().concat(certificate));
    push_line(&mut lines, String::new());
    push_line(
        &mut lines,
        "  ".to_string().concat(painted_text(YELLOW, "my.mentisdb.com").as_str()).concat(
            " is a public DNS A-record → 127.0.0.1",
        ),
    );
    push_line(
        &mut lines,
        "  You can use it as a friendly hostname for this local daemon.".to_string(),
    );
    push_friendly(&mut lines, "  MCP:  ", mcp_port);
    push_friendly(&mut lines, "  REST: ", rest_port);
    push_line(&mut lines, String::new());
    push_line(
        &mut lines,
        "  To avoid certificate warnings, trust the self-signed cert once:".to_string(),
    );
    push_line(
        &mut lines,
        system_text("macOS").concat(":   sudo security add-trusted-cert -d -r trustRoot \\"),
    );
    push_line(&mut lines, "             -k /Library/Keychains/System.keychain \\".to_string());
    push_line(&mut lines, "             ".to_string().concat(certificate));
    push_line(
        &mut lines,
        system_text("Linux").concat(":   sudo cp ").concat(certificate).concat(
            " /usr/local/share/ca-certificates/mentisdb.crt",
        ),
    );
    push_line(&mut lines, "           sudo update-ca-certificates".to_string());
    push_line(
        &mut lines,
        system_text("Windows").concat(": certutil -addstore Root ").concat(certificate),
    );
    push_line(&mut lines, String::new());
    proof {
        assert(texts(lines@) =~= tls_tip_lines(certificate@, mcp_port, rest_port));
    }
    lines
}

/// The tip is shown exactly if a server is reached over TLS.
pub proof fn law_tip_goes_with_tls(
    certificate: Seq<char>,
    mcp_port: Option<u16>,
    rest_port: Option<u16>,
)
    ensures
        tls_tip_lines(certificate, mcp_port, rest_port).len() > 0 <==> mcp_port is Some
            || rest_port is Some,
{
}

/// Whether two lines tell of an endpoint: how to reach it, and, indented, what it is for.
pub open spec fn tells_of(
    lines: Seq<Seq<char>>,
    at: int,
    reach: Seq<char>,
    about: Seq<char>,
) -> bool {
    0 <= at && at + 1 < lines.len() && lines[at] == reach && lines[at + 1] == "      "@ + about
}

/// Whether lines from `at` on tell of the endpoints of an MCP server.
pub open spec fn tells_of_mcp(
    lines: Seq<Seq<char>>,
    at: int,
    scheme: Seq<char>,
    address: Seq<char>,
) -> bool {
    &&& tells_of(
        lines,
        at + 0,
        "    POST "@ + scheme + address + ""@,
        "Standard streamable HTTP MCP root endpoint."@,
    )
    &&& tells_of(
        lines,
        at + 2,
        "    GET  "@ + scheme + address + "/health"@,
        "Health check for the MCP surface."@,
    )
    &&& tells_of(
        lines,
        at + 4,
        "    POST "@ + scheme + address + "/tools/list"@,
        "Legacy CloudLLM-compatible MCP tool discovery."@,
    )
    &&& tells_of(
        lines,
        at + 6,
        "    POST "@ + scheme + address + "/tools/execute"@,
        "Legacy CloudLLM-compatible MCP tool execution."@,
    )
}

/// Whether lines from `at` on tell of the endpoints of an MCP server over TLS.
pub open spec fn tells_of_https_mcp(
    lines: Seq<Seq<char>>,
    at: int,
    scheme: Seq<char>,
    address: Seq<char>,
) -> bool {
    &&& tells_of(
        lines,
        at + 0,
        "    POST "@ + scheme + address + ""@,
        "Streamable HTTP MCP root endpoint over TLS."@,
    )
    &&& tells_of(
        lines,
        at + 2,
        "    GET  "@ + scheme + address + "/health"@,
        "Health check for the HTTPS MCP surface."@,
    )
    &&& tells_of(
        lines,
        at + 4,
        "    POST "@ + scheme + address + "/tools/list"@,
        "Legacy CloudLLM-compatible MCP tool discovery (HTTPS)."@,
    )
    &&& tells_of(
        lines,
        at + 6,
        "    POST "@ + scheme + address + "/tools/execute"@,
        "Legacy CloudLLM-compatible MCP tool execution (HTTPS)."@,
    )
}

/// Whether lines from `at` on tell of the endpoints of a REST server, behind its health
/// check.
pub open spec fn tells_of_rest(
    lines: Seq<Seq<char>>,
    at: int,
    scheme: Seq<char>,
    address: Seq<char>,
) -> bool {
    &&& tells_of(
        lines,
        at + 0,
        "    GET  "@ + scheme + address + "/v1/chains"@,
        "List chains with version, adapter, counts, and storage location."@,
    )
    &&& tells_of(
        lines,
        at + 2,
        "    POST "@ + scheme + address + "/v1/agents"@,
        "List agent identity summaries for one chain."@,
    )
    &&& tells_of(
        lines,
        at + 4,
        "    POST "@ + scheme + address + "/v1/agent"@,
        "Return one full agent registry record."@,
    )
    &&& tells_of(
        lines,
        at + 6,
        "    POST "@ + scheme + address + "/v1/agent-registry"@,
        "Return the full agent registry for one chain."@,
    )
    &&& tells_of(
        lines,
        at + 8,
        "    POST "@ + scheme + address + "/v1/agents/upsert"@,
        "Create or update an agent registry record."@,
    )
    &&& tells_of(
        lines,
        at + 10,
        "    POST "@ + scheme + address + "/v1/agents/description"@,
        "Set or clear one agent description."@,
    )
    &&& tells_of(
        lines,
        at + 12,
        "    POST "@ + scheme + address + "/v1/agents/aliases"@,
        "Add one alias to a registered agent."@,
    )
    &&& tells_of(
        lines,
        at + 14,
        "    POST "@ + scheme + address + "/v1/agents/keys"@,
        "Add or replace one agent public key."@,
    )
    &&& tells_of(
        lines,
        at + 16,
        "    POST "@ + scheme + address + "/v1/agents/keys/revoke"@,
        "Revoke one agent public key."@,
    )
    &&& tells_of(
        lines,
        at + 18,
        "    POST "@ + scheme + address + "/v1/agents/disable"@,
        "Disable one registered agent."@,
    )
    &&& tells_of(
        lines,
        at + 20,
        "    GET  "@ + scheme + address + "/mentisdb_skill_md"@,
        "Return the embedded official MentisDB skill Markdown."@,
    )
    &&& tells_of(
        lines,
        at + 22,
        "    GET  "@ + scheme + address + "/v1/skills"@,
        "List uploaded skill summaries from the registry."@,
    )
    &&& tells_of(
        lines,
        at + 24,
        "    GET  "@ + scheme + address + "/v1/skills/manifest"@,
        "Describe searchable fields and supported skill formats."@,
    )
    &&& tells_of(
        lines,
        at + 26,
        "    POST "@ + scheme + address + "/v1/skills/upload"@,
        "Upload a new immutable skill version."@,
    )
    &&& tells_of(
        lines,
        at + 28,
        "    POST "@ + scheme + address + "/v1/skills/search"@,
        "Search skills by metadata, uploader identity, and time window."@,
    )
    &&& tells_of(
        lines,
        at + 30,
        "    POST "@ + scheme + address + "/v1/skills/read"@,
        "Read one stored skill as Markdown or JSON with safety warnings."@,
    )
    &&& tells_of(
        lines,
        at + 32,
        "    POST "@ + scheme + address + "/v1/skills/versions"@,
        "List immutable uploaded versions for one skill."@,
    )
    &&& tells_of(
        lines,
        at + 34,
        "    POST "@ + scheme + address + "/v1/skills/deprecate"@,
        "Mark one skill as deprecated."@,
    )
    &&& tells_of(
        lines,
        at + 36,
        "    POST "@ + scheme + address + "/v1/skills/revoke"@,
        "Mark one skill as revoked."@,
    )
    &&& tells_of(
        lines,
        at + 38,
        "    POST "@ + scheme + address + "/v1/bootstrap"@,
        "Bootstrap an empty chain with an initial checkpoint."@,
    )
    &&& tells_of(
        lines,
        at + 40,
        "    POST "@ + scheme + address + "/v1/thoughts"@,
        "Append a durable thought."@,
    )
    &&& tells_of(
        lines,
        at + 42,
        "    POST "@ + scheme + address + "/v1/retrospectives"@,
        "Append a retrospective thought."@,
    )
    &&& tells_of(
        lines,
        at + 44,
        "    POST "@ + scheme + address + "/v1/search"@,
        "Search thoughts by semantic and identity filters."@,
    )
    &&& tells_of(
        lines,
        at + 46,
        "    POST "@ + scheme + address + "/v1/recent-context"@,
        "Render a recent-context prompt snippet."@,
    )
    &&& tells_of(
        lines,
        at + 48,
        "    POST "@ + scheme + address + "/v1/memory-markdown"@,
        "Export a MEMORY.md-style markdown view."@,
    )
    &&& tells_of(
        lines,
        at + 50,
        "    POST "@ + scheme + address + "/v1/thought"@,
        "Read one thought by id, hash, or append-order index."@,
    )
    &&& tells_of(
        lines,
        at + 52,
        "    POST "@ + scheme + address + "/v1/thoughts/genesis"@,
        "Return the first thought in append order."@,
    )
    &&& tells_of(
        lines,
        at + 54,
        "    POST "@ + scheme + address + "/v1/thoughts/traverse"@,
        "Traverse thoughts forward or backward in filtered chunks."@,
    )
    &&& tells_of(
        lines,
        at + 56,
        "    POST "@ + scheme + address + "/v1/head"@,
        "Return the latest thought at the chain tip and head metadata."@,
    )
}

proof fn lemma_endpoint_at(
    scheme: Seq<char>,
    address: Seq<char>,
    endpoints: Seq<Endpoint>,
    k: int,
)
    ensures
        endpoints_lines(scheme, address, endpoints).len() == 2 * endpoints.len(),
        0 <= k < endpoints.len() ==> endpoints_lines(scheme, address, endpoints)[2 * k]
            == endpoint_lines(scheme, address, endpoints[k])[0]
            && endpoints_lines(scheme, address, endpoints)[2 * k + 1] == endpoint_lines(
            scheme,
            address,
            endpoints[k],
        )[1],
    decreases endpoints.len(),
{
    if endpoints.len() > 0 {
        lemma_endpoint_at(scheme, address, endpoints.drop_last(), k);
    }
}

proof fn lemma_mcp_lines(scheme: Seq<char>, address: Seq<char>)
    ensures
        tells_of_mcp(endpoints_lines(scheme, address, mcp_catalog()), 0, scheme, address),
        tells_of_https_mcp(
            endpoints_lines(scheme, address, https_mcp_catalog()),
            0,
            scheme,
            address,
        ),
        endpoints_lines(scheme, address, mcp_catalog()).len() == 8,
        endpoints_lines(scheme, address, https_mcp_catalog()).len() == 8,
{
    let a = mcp_catalog();
    let b = https_mcp_catalog();
    lemma_endpoint_at(scheme, address, a, 0);
    lemma_endpoint_at(scheme, address, b, 0);
    lemma_endpoint_at(scheme, address, a, 1);
    lemma_endpoint_at(scheme, address, b, 1);
    lemma_endpoint_at(scheme, address, a, 2);
    lemma_endpoint_at(scheme, address, b, 2);
    lemma_endpoint_at(scheme, address, a, 3);
    lemma_endpoint_at(scheme, address, b, 3);
}

proof fn lemma_rest_lines(scheme: Seq<char>, address: Seq<char>)
    ensures
        tells_of_rest(endpoints_lines(scheme, address, rest_catalog()), 0, scheme, address),
        endpoints_lines(scheme, address, rest_catalog()).len() == 58,
{
    let a = rest_catalog();
    lemma_endpoint_at(scheme, address, a, 0);
    lemma_endpoint_at(scheme, address, a, 1);
    lemma_endpoint_at(scheme, address, a, 2);
    lemma_endpoint_at(scheme, address, a, 3);
    lemma_endpoint_at(scheme, address, a, 4);
    lemma_endpoint_at(scheme, address, a, 5);
    lemma_endpoint_at(scheme, address, a, 6);
    lemma_endpoint_at(scheme, address, a, 7);
    lemma_endpoint_at(scheme, address, a, 8);
    lemma_endpoint_at(scheme, address, a, 9);
    lemma_endpoint_at(scheme, address, a, 10);
    lemma_endpoint_at(scheme, address, a, 11);
    lemma_endpoint_at(scheme, address, a, 12);
    lemma_endpoint_at(scheme, address, a, 13);
    lemma_endpoint_at(scheme, address, a, 14);
    lemma_endpoint_at(scheme, address, a, 15);
    lemma_endpoint_at(scheme, address, a, 16);
    lemma_endpoint_at(scheme, address, a, 17);
    lemma_endpoint_at(scheme, address, a, 18);
    lemma_endpoint_at(scheme, address, a, 19);
    lemma_endpoint_at(scheme, address, a, 20);
    lemma_endpoint_at(scheme, address, a, 21);
    lemma_endpoint_at(scheme, address, a, 22);
    lemma_endpoint_at(scheme, address, a, 23);
    lemma_endpoint_at(scheme, address, a, 24);
    lemma_endpoint_at(scheme, address, a, 25);
    lemma_endpoint_at(scheme, address, a, 26);
    lemma_endpoint_at(scheme, address, a, 27);
    lemma_endpoint_at(scheme, address, a, 28);
}

/// The catalog tells of every endpoint of the running servers, each under the address of
/// its own server, with the scheme of that server and with what it is for. A server over
/// TLS that is switched off is left out.
pub proof fn law_catalog_tells_of_every_endpoint(
    mcp: Seq<char>,
    rest: Seq<char>,
    https_mcp: Option<Seq<char>>,
    https_rest: Option<Seq<char>>,
)
    ensures
        ({
            let lines = catalog_lines(mcp, rest, https_mcp, https_rest);
            let a = 73 + (if https_mcp is Some {
                9int
            } else {
                0
            });
            &&& lines.len() == a + (if https_rest is Some {
                62int
            } else {
                0
            })
            &&& lines[0].len() == 0
            &&& lines[1] == "Endpoints:"@
            &&& lines[2] == "  MCP"@
            &&& tells_of_mcp(lines, 3, "http://"@, mcp)
            &&& lines[11] == "  REST"@
            &&& tells_of(
                lines,
                12,
                "    GET  "@ + "http://"@ + rest + "/health"@,
                "Health check for the REST surface."@,
            )
            &&& tells_of_rest(lines, 14, "http://"@, rest)
            &&& lines[72].len() == 0
            &&& https_mcp matches Some(address) ==> {
                &&& lines[73] == "  HTTPS MCP"@
                &&& tells_of_https_mcp(lines, 74, "https://"@, address)
            }
            &&& https_rest matches Some(address) ==> {
                &&& lines[a] == "  HTTPS REST"@
                &&& tells_of(
                    lines,
                    a + 1,
                    "    GET  "@ + "https://"@ + address + "/health"@,
                    "Health check for the HTTPS REST surface."@,
                )
                &&& tells_of_rest(lines, a + 3, "https://"@, address)
                &&& lines[a + 61].len() == 0
            }
        }),
{
    let lines = catalog_lines(mcp, rest, https_mcp, https_rest);
    let m = endpoints_lines("http://"@, mcp, mcp_catalog());
    let r = endpoints_lines("http://"@, rest, rest_catalog());
    lemma_mcp_lines("http://"@, mcp);
    lemma_rest_lines("http://"@, rest);
    assert forall|j: int| 0 <= j < 8 implies lines[3 + j] == #[trigger] m[j] by {}
    assert forall|j: int| 0 <= j < 58 implies lines[14 + j] == #[trigger] r[j] by {}
    lemma_mcp_moves(m, lines, 0, 3, "http://"@, mcp);
    lemma_rest_moves(r, lines, 0, 14, "http://"@, rest);
    let h = endpoint_lines("http://"@, rest, rest_health());
    assert(lines[12] == h[0] && lines[13] == h[1]);
    if let Some(address) = https_mcp {
        let n = endpoints_lines("https://"@, address, https_mcp_catalog());
        lemma_mcp_lines("https://"@, address);
        assert forall|j: int| 0 <= j < 8 implies lines[74 + j] == #[trigger] n[j] by {}
        lemma_https_mcp_moves(n, lines, 0, 74, "https://"@, address);
    }
    if let Some(address) = https_rest {
        let a = 73 + (if https_mcp is Some {
            9int
        } else {
            0
        });
        let n = endpoints_lines("https://"@, address, rest_catalog());
        if let Some(other) = https_mcp {
            lemma_mcp_lines("https://"@, other);
        }
        lemma_rest_lines("https://"@, address);
        assert forall|j: int| 0 <= j < 58 implies lines[a + 3 + j] == #[trigger] n[j] by {}
        lemma_rest_moves(n, lines, 0, a + 3, "https://"@, address);
        let g = endpoint_lines("https://"@, address, https_rest_health());
        assert(lines[a + 1] == g[0] && lines[a + 2] == g[1]);
    }
}

proof fn lemma_mcp_moves(
    from: Seq<Seq<char>>,
    to: Seq<Seq<char>>,
    here: int,
    there: int,
    scheme: Seq<char>,
    address: Seq<char>,
)
    requires
        tells_of_mcp(from, here, scheme, address),
        0 <= there,
        there + 8 <= to.len(),
        forall|j: int| 0 <= j < 8 ==> to[there + j] == #[trigger] from[here + j],
    ensures
        tells_of_mcp(to, there, scheme, address),
{
    assert(to[there + 0] == from[here + 0]);
    assert(to[there + 1] == from[here + 1]);
    assert(to[there + 2] == from[here + 2]);
    assert(to[there + 3] == from[here + 3]);
    assert(to[there + 4] == from[here + 4]);
    assert(to[there + 5] == from[here + 5]);
    assert(to[there + 6] == from[here + 6]);
    assert(to[there + 7] == from[here + 7]);
}

proof fn lemma_https_mcp_moves(
    from: Seq<Seq<char>>,
    to: Seq<Seq<char>>,
    here: int,
    there: int,
    scheme: Seq<char>,
    address: Seq<char>,
)
    requires
        tells_of_https_mcp(from, here, scheme, address),
        0 <= there,
        there + 8 <= to.len(),
        forall|j: int| 0 <= j < 8 ==> to[there + j] == #[trigger] from[here + j],
    ensures
        tells_of_https_mcp(to, there, scheme, address),
{
    assert(to[there + 0] == from[here + 0]);
    assert(to[there + 1] == from[here + 1]);
    assert(to[there + 2] == from[here + 2]);
    assert(to[there + 3] == from[here + 3]);
    assert(to[there + 4] == from[here + 4]);
    assert(to[there + 5] == from[here + 5]);
    assert(to[there + 6] == from[here + 6]);
    assert(to[there + 7] == from[here + 7]);
}

proof fn lemma_rest_moves(
    from: Seq<Seq<char>>,
    to: Seq<Seq<char>>,
    here: int,
    there: int,
    scheme: Seq<char>,
    address: Seq<char>,
)
    requires
        tells_of_rest(from, here, scheme, address),
        0 <= there,
        there + 58 <= to.len(),
        forall|j: int| 0 <= j < 58 ==> to[there + j] == #[trigger] from[here + j],
    ensures
        tells_of_rest(to, there, scheme, address),
{
    assert(to[there + 0] == from[here + 0]);
    assert(to[there + 1] == from[here + 1]);
    assert(to[there + 2] == from[here + 2]);
    assert(to[there + 3] == from[here + 3]);
    assert(to[there + 4] == from[here + 4]);
    assert(to[there + 5] == from[here + 5]);
    assert(to[there + 6] == from[here + 6]);
    assert(to[there + 7] == from[here + 7]);
    assert(to[there + 8] == from[here + 8]);
    assert(to[there + 9] == from[here + 9]);
    assert(to[there + 10] == from[here + 10]);
    assert(to[there + 11] == from[here + 11]);
    assert(to[there + 12] == from[here + 12]);
    assert(to[there + 13] == from[here + 13]);
    assert(to[there + 14] == from[here + 14]);
    assert(to[there + 15] == from[here + 15]);
    assert(to[there + 16] == from[here + 16]);
    assert(to[there + 17] == from[here + 17]);
    assert(to[there + 18] == from[here + 18]);
    assert(to[there + 19] == from[here + 19]);
    assert(to[there + 20] == from[here + 20]);
    assert(to[there + 21] == from[here + 21]);
    assert(to[there + 22] == from[here + 22]);
    assert(to[there + 23] == from[here + 23]);
    assert(to[there + 24] == from[here + 24]);
    assert(to[there + 25] == from[here + 25]);
    assert(to[there + 26] == from[here + 26]);
    assert(to[there + 27] == from[here + 27]);
    assert(to[there + 28] == from[here + 28]);
    assert(to[there + 29] == from[here + 29]);
    assert(to[there + 30] == from[here + 30]);
    assert(to[there + 31] == from[here + 31]);
    assert(to[there + 32] == from[here + 32]);
    assert(to[there + 33] == from[here + 33]);
    assert(to[there + 34] == from[here + 34]);
    assert(to[there + 35] == from[here + 35]);
    assert(to[there + 36] == from[here + 36]);
    assert(to[there + 37] == from[here + 37]);
    assert(to[there + 38] == from[here + 38]);
    assert(to[there + 39] == from[here + 39]);
    assert(to[there + 40] == from[here + 40]);
    assert(to[there + 41] == from[here + 41]);
    assert(to[there + 42] == from[here + 42]);
    assert(to[there + 43] == from[here + 43]);
    assert(to[there + 44] == from[here + 44]);
    assert(to[there + 45] == from[here + 45]);
    assert(to[there + 46] == from[here + 46]);
    assert(to[there + 47] == from[here + 47]);
    assert(to[there + 48] == from[here + 48]);
    assert(to[there + 49] == from[here + 49]);
    assert(to[there + 50] == from[here + 50]);
    assert(to[there + 51] == from[here + 51]);
    assert(to[there + 52] == from[here + 52]);
    assert(to[there + 53] == from[here + 53]);
    assert(to[there + 54] == from[here + 54]);
    assert(to[there + 55] == from[here + 55]);
    assert(to[there + 56] == from[here + 56]);
    assert(to[there + 57] == from[here + 57]);
}

/// The tip names the certificate where it is to be trusted, on every system, and the
/// servers that are reached over TLS, each with its own port.
pub proof fn law_tip_names_certificate_and_ports(
    certificate: Seq<char>,
    mcp_port: Option<u16>,
    rest_port: Option<u16>,
)
    requires
        mcp_port is Some || rest_port is Some,
    ensures
        ({
            let lines = tls_tip_lines(certificate, mcp_port, rest_port);
            let a = 4 + (if mcp_port is Some {
                1int
            } else {
                0
            });
            let b = a + (if rest_port is Some {
                1int
            } else {
                0
            });
            &&& lines.len() == b + 9
            &&& lines[0] == "TLS Certificate: "@ + certificate
            &&& mcp_port matches Some(p) ==> lines[4] == "  MCP:  "@ + "https://my.mentisdb.com:"@
                + decimal(p as nat)
            &&& rest_port matches Some(p) ==> lines[a] == "  REST: "@ + "https://my.mentisdb.com:"@
                + decimal(p as nat)
            &&& lines[b + 4] == "             "@ + certificate
            &&& lines[b + 5] == "  "@ + (GREEN@ + "Linux"@ + crate::paint::RESET@) + ":   sudo cp "@
                + certificate + " /usr/local/share/ca-certificates/mentisdb.crt"@
            &&& lines[b + 7] == "  "@ + (GREEN@ + "Windows"@ + crate::paint::RESET@)
                + ": certutil -addstore Root "@ + certificate
        }),
{
}

} // verus!
