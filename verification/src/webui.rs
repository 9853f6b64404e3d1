//! The dashboard: one page that shows the farm through its API.

use vstd::prelude::*;

use crate::config::{FarmConfig, FarmConfigView};
use crate::text;

verus! {

/// The release that the orchestrator and the worker say they are.
pub const VERSION: &'static str = "2.0.0";

/// The page up to its title.
pub const TOP: &'static str = r##"<!DOCTYPE html>
<html lang="en">
<head>
<meta charset="UTF-8">
<meta name="viewport" content="width=device-width,initial-scale=1">
<title>"##;

/// From the title to the first place of the accent colour.
pub const STYLE: &'static str = r##" Dashboard</title>
<style>
:root {
  --bg: #0d1117; --surface: #161b22; --border: #30363d;
  --text: #e6edf3; --muted: #8b949e; --green: #3fb950;
  --yellow: #d29922; --red: #f85149; --blue: "##;

/// From there to the second.
pub const ACCENT: &'static str = r##";
  --accent: "##;

/// From there to the logo.
pub const HEADER: &'static str = r##"; --font: 'SF Mono','Fira Code',monospace;
}
* { box-sizing: border-box; margin: 0; padding: 0; }
body { background: var(--bg); color: var(--text); font-family: var(--font); font-size: 13px; }
header {
  background: var(--surface); border-bottom: 1px solid var(--border);
  padding: 12px 24px; display: flex; align-items: center; gap: 16px;
}
.logo-icon { font-size: 18px; }
.logo-img  { height: 28px; object-fit: contain; }
.logo-text { font-size: 16px; font-weight: 600; color: var(--accent); }
header .tagline { color: var(--muted); font-size: 11px; }
header .ver { color: var(--muted); font-size: 11px; margin-left: auto; }
.badge {
  padding: 2px 8px; border-radius: 12px; font-size: 11px; font-weight: 600;
}
.badge.green  { background: #1a3a22; color: var(--green);  border: 1px solid var(--green); }
.badge.yellow { background: #2d2208; color: var(--yellow); border: 1px solid var(--yellow); }
.badge.red    { background: #2d0e0e; color: var(--red);    border: 1px solid var(--red); }
.badge.blue   { background: #0d2149; color: var(--blue);   border: 1px solid var(--blue); }
main { padding: 24px; display: grid; gap: 20px; }
.cards { display: grid; grid-template-columns: repeat(auto-fit, minmax(160px,1fr)); gap: 12px; }
.card {
  background: var(--surface); border: 1px solid var(--border);
  border-radius: 8px; padding: 16px;
}
.card .label { color: var(--muted); font-size: 11px; text-transform: uppercase; letter-spacing: .05em; }
.card .value { font-size: 28px; font-weight: 700; margin-top: 4px; color: var(--accent); }
section { background: var(--surface); border: 1px solid var(--border); border-radius: 8px; overflow: hidden; }
section h2 { padding: 12px 16px; font-size: 13px; border-bottom: 1px solid var(--border); color: var(--muted); text-transform: uppercase; letter-spacing: .06em; }
table { width: 100%; border-collapse: collapse; }
th, td { padding: 9px 16px; text-align: left; border-bottom: 1px solid var(--border); }
th { color: var(--muted); font-size: 11px; font-weight: 400; text-transform: uppercase; }
tr:last-child td { border-bottom: none; }
tr:hover td { background: rgba(255,255,255,.02); }
.ts { color: var(--muted); font-size: 11px; }
.refresh { background: none; border: 1px solid var(--border);
  color: var(--muted); padding: 4px 12px; border-radius: 6px; cursor: pointer; font: inherit; }
.refresh:hover { color: var(--text); border-color: var(--accent); }
</style>
</head>
<body>
<header>
  "##;

/// From the logo to the tagline.
pub const TAGLINE: &'static str = r##"
  <span class="tagline">"##;

/// From the tagline to the version.
pub const RELEASE: &'static str = r##"</span>
  <span class="ver">v"##;

/// From the version to the section on the tunnel.
pub const MAIN: &'static str = r##" &nbsp; <button class="refresh" onclick="load()">&#8635; Refresh</button></span>
</header>
<main>
  <div class="cards" id="cards">
    <div class="card"><div class="label">Online Workers</div><div class="value" id="c-workers">—</div></div>
    <div class="card"><div class="label">Pending Packages</div><div class="value" id="c-pkgs">—</div></div>
    <div class="card"><div class="label">Queued Jobs</div><div class="value" id="c-jobs">—</div></div>
    <div class="card"><div class="label">Completed Jobs</div><div class="value" id="c-done">—</div></div>
  </div>
  <section>
    <h2>Workers</h2>
    <table><thead><tr><th>ID</th><th>Hostname</th><th>IP</th><th>Cores</th><th>Status</th><th>Last Seen</th></tr></thead>
    <tbody id="workers-body"></tbody></table>
  </section>
  <section>
    <h2>Package Queue</h2>
    <table><thead><tr><th>#</th><th>Package</th><th>Version</th><th>Worker</th><th>Status</th><th>Requested</th></tr></thead>
    <tbody id="queue-body"></tbody></table>
  </section>
  <section>
    <h2>Compile Jobs</h2>
    <table><thead><tr><th>#</th><th>File</th><th>Submitted By</th><th>Status</th><th>Worker</th><th>Submitted</th></tr></thead>
    <tbody id="jobs-body"></tbody></table>
  </section>
  "##;

/// From that section to its script.
pub const SCRIPT: &'static str = r##"
</main>
<script>
const badge = (s) => {
  const cls = {online:'green',available:'green',done:'green',pending:'yellow',downloading:'yellow',queued:'blue',failed:'red',offline:'red'}[s]||'blue';
  return `<span class="badge ${cls}">${s}</span>`;
};
const ts = (t) => new Date(t*1000).toLocaleString();
async function load() {
  const [status, workers, queue, jobs] = await Promise.all([
    fetch('/api/status').then(r=>r.json()),
    fetch('/api/workers').then(r=>r.json()),
    fetch('/api/queue').then(r=>r.json()),
    fetch('/api/jobs').then(r=>r.json()),
  ]).catch(()=>[null,[],[],[]]);
  if (status) {
    document.getElementById('c-workers').textContent = status.online_workers;
    document.getElementById('c-pkgs').textContent    = status.pending_packages;
    document.getElementById('c-jobs').textContent    = status.queued_jobs;
    document.getElementById('c-done').textContent    = status.completed_jobs;
  }
  document.getElementById('workers-body').innerHTML = workers.map(w=>
    `<tr><td class="ts">${w.id}</td><td>${w.hostname}</td><td class="ts">${w.ip}</td><td>${w.cores}</td><td>${badge(w.status)}</td><td class="ts">${ts(w.last_seen)}</td></tr>`
  ).join('') || '<tr><td colspan="6" style="color:var(--muted);text-align:center">No workers registered</td></tr>';
  document.getElementById('queue-body').innerHTML = queue.map(q=>
    `<tr><td class="ts">${q.id}</td><td>${q.package}</td><td class="ts">${q.version||'—'}</td><td class="ts">${q.worker}</td><td>${badge(q.status)}</td><td class="ts">${ts(q.requested_at)}</td></tr>`
  ).join('') || '<tr><td colspan="6" style="color:var(--muted);text-align:center">Queue empty</td></tr>';
  document.getElementById('jobs-body').innerHTML = jobs.map(j=>
    `<tr><td class="ts">${j.id}</td><td>${j.filename}</td><td class="ts">${j.submitted_by}</td><td>${badge(j.status)}</td><td class="ts">${j.worker||'—'}</td><td class="ts">${ts(j.submitted_at)}</td></tr>`
  ).join('') || '<tr><td colspan="6" style="color:var(--muted);text-align:center">No jobs submitted</td></tr>';
  "##;

/// From that script to the end.
pub const END: &'static str = r##"
}
load();
setInterval(load, 10000);
</script>
</body>
</html>"##;

/// The section on the tunnel.
pub const PEERS_SECTION: &'static str = r##"
  <section>
    <h2>WireGuard Peers</h2>
    <table><thead><tr><th>Name</th><th>Assigned IP</th><th>Public Key</th><th>Added</th></tr></thead>
    <tbody id="wg-body"></tbody></table>
  </section>"##;

/// The script that fills it.
pub const PEERS_SCRIPT: &'static str = r##"
  if (document.getElementById('wg-body')) {
    fetch('/api/wg/peers').then(r=>r.json()).then(peers=>{
      document.getElementById('wg-body').innerHTML = peers.map(p=>
        `<tr><td>${p.name}</td><td class="ts">${p.ip}</td><td class="ts">${p.public_key.slice(0,24)}...</td><td class="ts">${ts(p.added_at)}</td></tr>`
      ).join('') || '<tr><td colspan="4" style="color:var(--muted);text-align:center">No WireGuard peers registered</td></tr>';
    }).catch(()=>{});
  }"##;

/// The farm's name behind its logo, or behind a cog where it has none.
pub open spec fn logo(cfg: FarmConfigView) -> Seq<char> {
    if cfg.logo_url.len() == 0 {
        "<span class=\"logo-icon\">&#9881;</span> <span class=\"logo-text\">"@ + cfg.name + "</span>"@
    } else {
        "<img src=\""@ + cfg.logo_url + "\" alt=\""@ + cfg.name
            + "\" class=\"logo-img\"> <span class=\"logo-text\">"@ + cfg.name + "</span>"@
    }
}

/// The dashboard of a farm: it shows the peers where the tunnel is on.
pub open spec fn page(cfg: FarmConfigView, wg: bool) -> Seq<char> {
    TOP@ + cfg.name + STYLE@ + cfg.accent_color + ACCENT@ + cfg.accent_color + HEADER@ + logo(cfg)
        + TAGLINE@ + cfg.tagline + RELEASE@ + VERSION@ + MAIN@ + (if wg {
        PEERS_SECTION@
    } else {
        ""@
    }) + SCRIPT@ + (if wg {
        PEERS_SCRIPT@
    } else {
        ""@
    }) + END@
}

/// The farm's name behind its logo, or behind a cog where it has none.
fn logo_html(cfg: &FarmConfig) -> (r: String)
    ensures
        r@ == logo(cfg@),
{
    let name = cfg.name.as_str();
    if cfg.logo_url.as_str().unicode_len() == 0 {
        "<span class=\"logo-icon\">&#9881;</span> <span class=\"logo-text\">".to_string().concat(
            name,
        ).concat("</span>")
    } else {
        "<img src=\"".to_string().concat(cfg.logo_url.as_str()).concat("\" alt=\"").concat(
            name,
        ).concat("\" class=\"logo-img\"> <span class=\"logo-text\">").concat(name).concat("</span>")
    }
}

/// The dashboard of a farm: it shows the peers where the tunnel is on.
pub fn webui_html(cfg: &FarmConfig, wg: bool) -> (r: String)
    ensures
        r@ == page(cfg@, wg),
{
    let accent = cfg.accent_color.as_str();
    let section = if wg {
        PEERS_SECTION
    } else {
        ""
    };
    let script = if wg {
        PEERS_SCRIPT
    } else {
        ""
    };
    TOP.to_string().concat(cfg.name.as_str()).concat(STYLE).concat(accent).concat(ACCENT).concat(
        accent,
    ).concat(HEADER).concat(logo_html(cfg).as_str()).concat(TAGLINE).concat(
        cfg.tagline.as_str(),
    ).concat(RELEASE).concat(VERSION).concat(MAIN).concat(section).concat(SCRIPT).concat(
        script,
    ).concat(END)
}

/// The logo is the picture, where there is one, with the farm's name beside it and in its place.
pub proof fn law_logo(cfg: FarmConfigView)
    ensures
        cfg.logo_url.len() == 0 ==> logo(cfg)
            == "<span class=\"logo-icon\">&#9881;</span> <span class=\"logo-text\">"@ + cfg.name
            + "</span>"@,
        cfg.logo_url.len() > 0 ==> logo(cfg) == "<img src=\""@ + cfg.logo_url + "\" alt=\""@ + cfg.name
            + "\" class=\"logo-img\"> <span class=\"logo-text\">"@ + cfg.name + "</span>"@,
{
}

/// Each setting of the farm stands on the page where its place is: the name in the title, the color
/// twice in the style, the logo and the tagline in the header, before the release.
pub proof fn law_page(cfg: FarmConfigView, wg: bool)
    ensures
        text::begins(page(cfg, wg), TOP@ + cfg.name + STYLE@),
        text::includes(
            page(cfg, wg),
            STYLE@ + cfg.accent_color + ACCENT@ + cfg.accent_color + HEADER@,
        ),
        text::includes(
            page(cfg, wg),
            HEADER@ + logo(cfg) + TAGLINE@ + cfg.tagline + RELEASE@ + "2.0.0"@ + MAIN@,
        ),
        text::ends(page(cfg, wg), END@),
{
    let p1 = TOP@ + cfg.name;
    let m1 = cfg.accent_color + ACCENT@ + cfg.accent_color;
    let m2 = logo(cfg) + TAGLINE@ + cfg.tagline + RELEASE@ + VERSION@;
    let wgs = if wg {
        PEERS_SECTION@
    } else {
        ""@
    };
    let wgc = if wg {
        PEERS_SCRIPT@
    } else {
        ""@
    };
    let tail = wgs + SCRIPT@ + wgc + END@;
    let s1 = STYLE@ + cfg.accent_color + ACCENT@ + cfg.accent_color + HEADER@;
    let s2 = HEADER@ + logo(cfg) + TAGLINE@ + cfg.tagline + RELEASE@ + VERSION@ + MAIN@;
    let h = p1 + STYLE@ + cfg.accent_color + ACCENT@ + cfg.accent_color;
    let h2 = h + HEADER@ + logo(cfg) + TAGLINE@ + cfg.tagline + RELEASE@ + VERSION@ + MAIN@;
    lemma_chain(p1, STYLE@, cfg.accent_color, ACCENT@, cfg.accent_color, HEADER@);
    lemma_chain_long(h, HEADER@, logo(cfg), TAGLINE@, cfg.tagline, RELEASE@, VERSION@, MAIN@);
    assert(h2 == h + s2);
    assert(h + HEADER@ == p1 + s1);
    let rest = logo(cfg) + TAGLINE@ + cfg.tagline + RELEASE@ + VERSION@ + MAIN@;
    assert(page(cfg, wg) == h2 + wgs + SCRIPT@ + wgc + END@);
    lemma_four(h2, wgs, SCRIPT@, wgc, END@);
    assert(page(cfg, wg) == h + s2 + tail);
    text::lemma_middle_included(h, s2, tail);
    lemma_chain_long(
        Seq::empty(),
        HEADER@,
        logo(cfg),
        TAGLINE@,
        cfg.tagline,
        RELEASE@,
        VERSION@,
        MAIN@,
    );
    lemma_front(HEADER@, logo(cfg), TAGLINE@, cfg.tagline, RELEASE@, VERSION@, MAIN@);
    assert(s2 == HEADER@ + rest);
    assert(h + (HEADER@ + rest) + tail =~= h + HEADER@ + (rest + tail));
    assert(page(cfg, wg) == p1 + s1 + (rest + tail));
    text::lemma_middle_included(p1, s1, rest + tail);
    let after = cfg.accent_color + ACCENT@ + cfg.accent_color + HEADER@;
    lemma_front_short(STYLE@, cfg.accent_color, ACCENT@, cfg.accent_color, HEADER@);
    assert(s1 == STYLE@ + after);
    assert(p1 + (STYLE@ + after) + (rest + tail) =~= p1 + STYLE@ + (after + (rest + tail)));
    text::law_begins_and_ends(page(cfg, wg), p1 + STYLE@);
    text::law_begins_and_ends(page(cfg, wg), END@);
    let front = h2 + wgs + SCRIPT@ + wgc;
    assert(page(cfg, wg) == front + END@);
}

proof fn lemma_four(a: Seq<char>, b: Seq<char>, c: Seq<char>, d: Seq<char>, e: Seq<char>)
    ensures
        a + b + c + d + e == a + (b + c + d + e),
{
    assert(a + b + c + d + e =~= a + (b + c + d + e));
}

proof fn lemma_chain(
    a: Seq<char>,
    b: Seq<char>,
    c: Seq<char>,
    d: Seq<char>,
    e: Seq<char>,
    f: Seq<char>,
)
    ensures
        a + b + c + d + e + f == a + (b + c + d + e + f),
{
    lemma_four(a, b, c, d, e);
    assert(a + (b + c + d + e) + f =~= a + (b + c + d + e + f));
}

proof fn lemma_chain_long(
    a: Seq<char>,
    b: Seq<char>,
    c: Seq<char>,
    d: Seq<char>,
    e: Seq<char>,
    f: Seq<char>,
    g: Seq<char>,
    k: Seq<char>,
)
    ensures
        a + b + c + d + e + f + g + k == a + (b + c + d + e + f + g + k),
{
    lemma_chain(a, b, c, d, e, f);
    let m = b + c + d + e + f;
    assert(a + m + g + k =~= a + (m + g + k));
}

proof fn lemma_front(
    b: Seq<char>,
    c: Seq<char>,
    d: Seq<char>,
    e: Seq<char>,
    f: Seq<char>,
    g: Seq<char>,
    k: Seq<char>,
)
    ensures
        b + c + d + e + f + g + k == b + (c + d + e + f + g + k),
{
    lemma_chain(b, c, d, e, f, g);
    let m = c + d + e + f + g;
    assert(b + m + k =~= b + (m + k));
}

proof fn lemma_front_short(b: Seq<char>, c: Seq<char>, d: Seq<char>, e: Seq<char>, f: Seq<char>)
    ensures
        b + c + d + e + f == b + (c + d + e + f),
{
    lemma_four(b, c, d, e, f);
}

/// The page of a farm with a tunnel is that of one without, with the list of peers before the
/// script and its loading at the end of the script.
pub proof fn law_peers_on_the_page(cfg: FarmConfigView)
    ensures
        exists|head: Seq<char>|
            page(cfg, false) == #[trigger] (head + SCRIPT@) + END@ && page(cfg, true) == head
                + PEERS_SECTION@ + SCRIPT@ + PEERS_SCRIPT@ + END@,
{
    reveal_strlit("");
    let head = TOP@ + cfg.name + STYLE@ + cfg.accent_color + ACCENT@ + cfg.accent_color + HEADER@
        + logo(cfg) + TAGLINE@ + cfg.tagline + RELEASE@ + VERSION@ + MAIN@;
    assert(head + ""@ =~= head);
    let s = head + SCRIPT@;
    assert(s + ""@ =~= s);
    assert(page(cfg, false) == (head + SCRIPT@) + END@);
}

/// What stands right around the settings on the page, and what is added to it with a tunnel.
pub proof fn law_page_texts()
    ensures
        TOP@
            == "<!DOCTYPE html>\n<html lang=\"en\">\n<head>\n<meta charset=\"UTF-8\">\n<meta name=\"viewport\" content=\"width=device-width,initial-scale=1\">\n<title>"@,
        STYLE@
            == " Dashboard</title>\n<style>\n:root {\n  --bg: #0d1117; --surface: #161b22; --border: #30363d;\n  --text: #e6edf3; --muted: #8b949e; --green: #3fb950;\n  --yellow: #d29922; --red: #f85149; --blue: "@,
        ACCENT@ == ";\n  --accent: "@,
        END@ == "\n}\nload();\nsetInterval(load, 10000);\n</script>\n</body>\n</html>"@,
        TAGLINE@ == "\n  <span class=\"tagline\">"@,
        RELEASE@ == "</span>\n  <span class=\"ver\">v"@,
        PEERS_SECTION@
            == "\n  <section>\n    <h2>WireGuard Peers</h2>\n    <table><thead><tr><th>Name</th><th>Assigned IP</th><th>Public Key</th><th>Added</th></tr></thead>\n    <tbody id=\"wg-body\"></tbody></table>\n  </section>"@,
        VERSION@ == "2.0.0"@,
{
}

} // verus!
