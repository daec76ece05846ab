//! The patterns of the web pages; each mark `{}` is filled in turn.
use vstd::prelude::*;

verus! {

/// Every page: title, style, the classes of the five links, heading, body, script.
pub const PAGE: &'static str = r#"<!doctype html>
<html lang="en">
<head>
  <meta charset="utf-8">
  <meta name="viewport" content="width=device-width, initial-scale=1">
  <title>{}</title>
  <style>{}</style>
</head>
<body>
  <header>
    <nav>
      <div class="brand-mark" aria-label="VPN Manager">
        <svg viewBox="0 0 24 24" aria-hidden="true"><path d="M12 2.5 19 5.4v5.3c0 4.8-2.8 9.1-7 10.8-4.2-1.7-7-6-7-10.8V5.4l7-2.9Zm0 2.2L7 6.8v3.9c0 3.6 1.9 6.9 5 8.4 3.1-1.5 5-4.8 5-8.4V6.8l-5-2.1Z"/></svg>
        <span>VPN Manager</span>
      </div>
      <a class="{}" href="/vpnman/">Home</a>
      <a class="{}" href="/vpnman/profiles">OpenVPN Configs</a>
      <a class="{}" href="/vpnman/templates">OpenVPN Templates</a>
      <a class="{}" href="/vpnman/settings/minica">Certificate Authority Config</a>
      <a class="{}" href="/vpnman/api/swagger">Swagger Explorer</a>
    </nav>
  </header>
  <main>
    {}
    {}
  </main>
  <div class="modal-backdrop" id="app-modal" hidden>
    <div class="modal-dialog" role="dialog" aria-modal="true" aria-labelledby="app-modal-title">
      <div class="modal-header">
        <h2 id="app-modal-title">Confirm</h2>
        <button class="modal-close" type="button" aria-label="Close">&times;</button>
      </div>
      <div class="modal-body" id="app-modal-body"></div>
      <div class="modal-footer">
        <button class="button" type="button" data-modal-cancel>Cancel</button>
        <button class="button primary" type="button" data-modal-confirm>Confirm</button>
      </div>
    </div>
  </div>
  <script>{}</script>
</body>
</html>"#;

/// The body of the first page: numbers of templates and profiles, state of the settings.
pub const DASHBOARD: &'static str = r#"
            <section class="grid three">
              <div class="panel summary-card"><span class="metric">{}</span><span class="label">OpenVPN Templates</span></div>
              <div class="panel summary-card"><span class="metric">{}</span><span class="label">OpenVPN Configs</span></div>
              <div class="panel summary-card"><span class="metric status">{}</span><span class="label">Certificate Authority</span></div>
            </section>
            "#;

/// The body of the settings: address, user name, password, default certificate authority and
/// its choices, list of certificate authorities, and the certificate defaults.
pub const SETTINGS: &'static str = r#"
            <form method="post" class="panel form js-test-form" data-test-url="/vpnman/settings/minica/test" data-save-confirm="Save certificate authority settings?">
              <h2>Minica Settings</h2>
              <div class="field"><label>Base URL</label><input name="base_url" value="{}" placeholder="http://localhost:9988"></div>
              <div class="row">
                <div class="field"><label>Username</label><input name="username" value="{}"></div>
                <div class="field"><label>Password</label><input name="password" type="password" value="{}"></div>
              </div>
              <div class="field"><label>Default CA ID</label><select name="default_ca_id" class="js-ca-select" data-current="{}">{}</select></div>
              <p class="test-result" aria-live="polite"></p>
              <div class="toolbar compact">
                <button class="button primary js-confirm-save" type="submit">Save</button>
                <button class="button js-inline-test" type="button">Test</button>
                <button class="button" type="reset">Reset</button>
              </div>
              <h2>Available CAs</h2>
              {}
            </form>
            <form method="post" action="/vpnman/settings/minica/cert-defaults" class="panel form js-test-form" data-test-url="/vpnman/settings/minica/cert-defaults/test" data-save-confirm="Save certificate defaults?">
              <h2>Certificate Defaults</h2>
              <input type="hidden" name="base_url" class="js-ca-shadow" data-source="base_url">
              <input type="hidden" name="username" class="js-ca-shadow" data-source="username">
              <input type="hidden" name="password" class="js-ca-shadow" data-source="password">
              <input type="hidden" name="default_ca_id" class="js-ca-shadow" data-source="default_ca_id">
              <div class="row">
                <div class="field"><label>Valid days</label><input name="valid_days" type="number" value="{}"></div>
                <div class="field"><label>Key profile</label><select name="key_profile">
                  {}
                </select></div>
              </div>
              <div class="row">
                <div class="field"><label>Country code</label><input name="country_code" value="{}"></div>
                <div class="field"><label>Digest algorithm</label><input name="digest_algorithm" value="{}"></div>
              </div>
              <div class="row">
                <div class="field"><label>Organization</label><input name="organization" value="{}"></div>
                <div class="field"><label>Organization unit</label><input name="organization_unit" value="{}"></div>
              </div>
              <div class="row">
                <div class="field"><label>State</label><input name="state" value="{}"></div>
                <div class="field"><label>City</label><input name="city" value="{}"></div>
              </div>
              <div class="row">
                <div class="field"><label>DNS list</label><input name="dns_list" value="{}" placeholder="vpn.example.com,*.example.com"></div>
                <div class="field"><label>IP list</label><input name="ip_list" value="{}" placeholder="10.0.0.1,10.0.0.2"></div>
              </div>
              <p class="test-result" aria-live="polite"></p>
              <div class="toolbar compact">
                <button class="button primary js-confirm-save" type="submit">Save</button>
                <button class="button js-inline-test" type="button">Test</button>
                <button class="button" type="reset">Reset</button>
              </div>
            </form>
            "#;

/// A template in the list: name, description, identifier, number of placeholders, and the
/// identifier in its two addresses.
pub const TEMPLATE_ROW: &'static str = r#"<tr><td>{}</td><td>{}</td><td><code>{}</code></td><td>{}</td><td><a class="button small" href="/vpnman/templates/{}/edit">Edit</a> <form class="inline js-confirm-delete" method="post" action="/vpnman/templates/{}/delete" data-confirm="Delete this OpenVPN template?"><button class="button danger small" type="submit">Delete</button></form></td></tr>"#;

/// The body of the list of templates: its rows.
pub const TEMPLATES: &'static str = r#"
            <form method="post" action="/vpnman/templates/new" class="toolbar"><button class="button primary" type="submit">New</button></form>
            <table><thead><tr><th>Name</th><th>Description</th><th>ID</th><th>Variables</th><th></th></tr></thead><tbody>{}</tbody></table>
            "#;

/// The body of the editor: identifier, name, identifier, description, delimiters, text, metadata
/// of the variables, reserved names.
pub const EDITOR: &'static str = r#"
                    <form method="post" class="panel form">
                      <input type="hidden" name="id" value="{}">
                      <div class="row">
                        <div class="field"><label>Name</label><input name="name" value="{}"></div>
                        <div class="field"><label>Template ID</label><input value="{}" disabled></div>
                      </div>
                      <div class="field"><label>Description</label><input name="description" value="{}"></div>
                      <div class="row">
                        <div class="field"><label>Token start</label><input name="token_start" value="{}" required></div>
                        <div class="field"><label>Token stop</label><input name="token_stop" value="{}" required></div>
                      </div>
                      <div class="field"><label>OpenVPN Template</label><textarea name="body" class="code" rows="18">{}</textarea></div>
                      <div class="field"><label>Variable Metadata YAML</label><textarea name="variables_yaml" class="code" rows="14">{}</textarea></div>
                      <p class="muted">Detected variables are synchronized on save. Reserved auto-filled variables: {}</p>
                      <button class="button primary" type="submit">Save Template</button>
                    </form>
                    "#;

/// The body of the form for a profile: templates, certificate authorities, inputs.
pub const GENERATOR: &'static str = r#"
            <form method="post" class="panel form">
              <div class="row">
                <div class="field"><label>Template</label><select name="template_id" onchange="window.location='/vpnman/generate?template_id='+encodeURIComponent(this.value)">{}</select></div>
                <div class="field"><label>Certificate Authority</label><select name="ca_id">{}</select></div>
              </div>
              <div class="row">
                <div class="field"><label>Client name</label><input name="client_name" required></div>
                <div class="field"><label>Tags</label><input name="tags" placeholder="laptop,team=engineering,region=sg"></div>
              </div>
              <h2>Template Values</h2>
              {}
              <button class="button primary" type="submit">Generate Profile</button>
            </form>
            "#;

/// A profile in the list: identifier, client, certificate authority, parameters, age, date, and
/// the identifier in its two addresses.
pub const PROFILE_ROW: &'static str = r#"<tr><td><a href="/vpnman/profiles/{}">{}</a></td><td>{}</td><td>{}</td><td title="{}">{}</td><td><a class="button small" href="/vpnman/profiles/{}/download">Download</a> <form class="inline js-confirm-delete" method="post" action="/vpnman/profiles/{}/delete" data-confirm="Delete this OpenVPN config?"><button class="button danger small" type="submit">Delete</button></form></td></tr>"#;

/// The body of the list of profiles: its rows.
pub const PROFILES: &'static str = r#"<section class="toolbar"><a class="button primary" href="/vpnman/generate">New</a></section><table class="configs-table"><thead><tr><th>Client</th><th>CA</th><th>Parameters</th><th>Created</th><th></th></tr></thead><tbody>{}</tbody></table>"#;

/// The body of a profile: identifier twice, client, template, certificate authority, certificate,
/// tags, age, time, parameters, text.
pub const PROFILE: &'static str = r#"
            <section class="toolbar">
              <a class="button" href="/vpnman/profiles">Back</a>
              <a class="button primary" href="/vpnman/profiles/{}/download">Download</a>
              <form class="inline js-confirm-delete" method="post" action="/vpnman/profiles/{}/delete" data-confirm="Delete this OpenVPN config?"><button class="button danger" type="submit">Delete</button></form>
            </section>
            <section class="panel">
              <h2>Details</h2>
              <dl class="details">
                <dt>Client</dt><dd>{}</dd>
                <dt>Template</dt><dd>{}</dd>
                <dt>Certificate Authority</dt><dd>{}</dd>
                <dt>Certificate ID</dt><dd><code>{}</code></dd>
                <dt>Tags</dt><dd>{}</dd>
                <dt>Created</dt><dd title="{}">{}</dd>
              </dl>
            </section>
            <section class="panel">
              <h2>Template Values</h2>
              <table class="parameters-table"><thead><tr><th>Name</th><th>Value</th></tr></thead><tbody>{}</tbody></table>
            </section>
            <section class="panel">
              <h2>Raw Profile</h2>
              <textarea class="code raw" readonly>{}</textarea>
            </section>
            "#;

/// The body of the explorer of the programming interface.
pub const SWAGGER: &'static str = r#"
        <link rel="stylesheet" href="/vpnman/api/swagger-ui/swagger-ui.css">
        <section class="panel swagger-panel">
          <div id="swagger-ui"></div>
        </section>
        <script src="/vpnman/api/swagger-ui/swagger-ui-bundle.js"></script>
        <script src="/vpnman/api/swagger-ui/swagger-ui-standalone-preset.js"></script>
        <script>
          window.addEventListener('load', () => {
            window.ui = SwaggerUIBundle({
              url: '/vpnman/api/openapi.json',
              dom_id: '#swagger-ui',
              deepLinking: true,
              presets: [
                SwaggerUIBundle.presets.apis,
                SwaggerUIStandalonePreset
              ],
              layout: 'BaseLayout',
              requestInterceptor: (request) => {
                request.credentials = 'same-origin';
                return request;
              }
            });
          });
        </script>
        "#;

/// A certificate authority in the list: name and identifier.
pub const CA_ROW: &'static str = r#"<tr><td>{}</td><td><code>{}</code></td></tr>"#;

/// The list of certificate authorities: its rows.
pub const CA_TABLE: &'static str = r#"<table><thead><tr><th>Common name</th><th>ID</th></tr></thead><tbody>{}</tbody></table>"#;

/// The list of certificate authorities where there are none.
pub const CA_NONE: &'static str = r#"<p class="muted">Connected, but no CAs were returned.</p>"#;

/// The list of certificate authorities where it could not be had: the reason.
pub const CA_FAILED: &'static str = r#"<p class="error">Connection test failed: {}</p>"#;

/// The inputs where there is no template.
pub const NO_TEMPLATE: &'static str = r#"<p class="muted">Create a template before generating a profile.</p>"#;

/// A parameter of a profile: name and value.
pub const VALUE_ROW: &'static str = r#"<tr><td class="param-key-cell">{}</td><td class="param-value-cell">{}</td></tr>"#;

/// The body of a page that reports an error: the error.
pub const ERROR: &'static str = r#"<p class="error">{}</p><p><a class="button" href="/vpnman/">Back to dashboard</a></p>"#;

} // verus!
