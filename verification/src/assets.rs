//! The style and the script of the web pages.
use vstd::prelude::*;

verus! {

/// The style of every page.
pub const CSS: &'static str = r#"
:root {
  color-scheme: light;
  --bg: #f6f7f9;
  --panel: #ffffff;
  --text: #20242a;
  --muted: #667085;
  --line: #d9dde3;
  --accent: #176d63;
  --accent-dark: #0f554e;
  --danger: #b42318;
}
* { box-sizing: border-box; }
body {
  margin: 0;
  font-family: Inter, ui-sans-serif, system-ui, -apple-system, BlinkMacSystemFont, "Segoe UI", sans-serif;
  background: var(--bg);
  color: var(--text);
}
header {
  background: #fff;
  border-bottom: 1px solid var(--line);
}
nav {
  max-width: 1160px;
  margin: 0 auto;
  height: 58px;
  display: flex;
  align-items: center;
  gap: 10px;
  padding: 0 22px;
}
nav a {
  color: #364152;
  text-decoration: none;
  font-size: 14px;
}
.brand-mark {
  display: inline-flex;
  align-items: center;
  justify-content: center;
  gap: 9px;
  min-height: 40px;
  margin-right: auto;
  color: var(--accent);
  font-size: 18px;
  font-weight: 750;
  white-space: nowrap;
}
.brand-mark svg {
  width: 31px;
  height: 31px;
  fill: currentColor;
}
.brand-mark span {
  color: var(--text);
}
.nav-link {
  display: inline-flex;
  align-items: center;
  min-height: 34px;
  padding: 6px 10px;
  border: 1px solid var(--line);
  border-radius: 6px;
  background: #fff;
}
.nav-link.active {
  color: #fff;
  background: var(--accent);
  border-color: var(--accent);
  font-weight: 650;
}
main {
  max-width: 1160px;
  margin: 0 auto;
  padding: 30px 22px 60px;
}
h1 {
  margin: 0 0 22px;
  font-size: 28px;
  line-height: 1.2;
}
h2 {
  margin: 8px 0 10px;
  font-size: 17px;
}
.toolbar {
  display: flex;
  gap: 10px;
  align-items: center;
  margin-bottom: 18px;
}
.toolbar.compact {
  margin-bottom: 0;
}
.grid {
  display: grid;
  gap: 16px;
  align-items: stretch;
}
.grid.two { grid-template-columns: repeat(2, minmax(0, 1fr)); }
.grid.three { grid-template-columns: repeat(3, minmax(0, 1fr)); }
.panel {
  background: var(--panel);
  border: 1px solid var(--line);
  border-radius: 8px;
  padding: 18px;
}
.panel + .panel {
  margin-top: 18px;
}
.grid > .panel {
  margin-top: 0 !important;
}
.panel h2:first-child {
  margin-top: 0;
}
.summary-card {
  height: 150px;
  min-height: 150px;
  display: grid;
  grid-template-rows: 1fr auto;
  align-content: center;
}
.metric {
  display: block;
  font-size: 38px;
  font-weight: 700;
  line-height: 1.2;
}
.metric.status {
  font-size: 20px;
  line-height: 1.3;
  min-height: 46px;
  display: flex;
  align-items: center;
}
.label, .muted, small {
  color: var(--muted);
}
.form {
  display: flex;
  flex-direction: column;
  gap: 14px;
}
.row {
  display: grid;
  grid-template-columns: repeat(2, minmax(0, 1fr));
  gap: 14px;
}
.field {
  display: flex;
  flex-direction: column;
  gap: 6px;
}
label {
  font-weight: 650;
  font-size: 13px;
}
input, textarea, select {
  width: 100%;
  border: 1px solid var(--line);
  border-radius: 6px;
  background: #fff;
  color: var(--text);
  padding: 10px 11px;
  font: inherit;
}
textarea.code {
  font-family: ui-monospace, SFMono-Regular, Menlo, Consolas, monospace;
  font-size: 13px;
  line-height: 1.45;
}
textarea.raw {
  min-height: 420px;
}
.button {
  display: inline-flex;
  align-items: center;
  justify-content: center;
  min-height: 38px;
  border: 1px solid var(--line);
  border-radius: 6px;
  padding: 8px 12px;
  color: var(--text);
  background: #fff;
  text-decoration: none;
  font: inherit;
  cursor: pointer;
}
.button.primary {
  color: #fff;
  background: var(--accent);
  border-color: var(--accent);
}
.button.primary:hover { background: var(--accent-dark); }
.button.danger {
  color: #fff;
  background: var(--danger);
  border-color: var(--danger);
}
.button.small {
  min-height: 30px;
  padding: 5px 9px;
  font-size: 13px;
}
table {
  width: 100%;
  border-collapse: collapse;
  background: #fff;
  border: 1px solid var(--line);
  border-radius: 8px;
  overflow: hidden;
}
th, td {
  text-align: left;
  padding: 11px 12px;
  border-bottom: 1px solid var(--line);
  vertical-align: top;
}
th {
  font-size: 12px;
  color: #475467;
  background: #f8fafc;
  text-transform: uppercase;
}
code {
  font-family: ui-monospace, SFMono-Regular, Menlo, Consolas, monospace;
  font-size: 12px;
}
.inline {
  display: inline;
}
.error {
  color: var(--danger);
  font-weight: 650;
}
.success {
  color: var(--accent);
  font-weight: 650;
}
.test-result {
  display: none;
  margin: 0;
}
.test-result:not(:empty) {
  display: block;
}
.configs-table td:first-child {
  font-weight: 650;
}
.configs-table td:nth-child(3) {
  min-width: 280px;
}
.param-chip {
  display: grid;
  grid-template-columns: minmax(96px, max-content) minmax(0, 1fr);
  align-items: baseline;
  gap: 10px;
  max-width: 100%;
  margin: 0 0 6px;
  padding: 6px 8px;
  border: 1px solid var(--line);
  border-radius: 6px;
  background: #f8fafc;
  overflow-wrap: anywhere;
}
.param-chip:last-child {
  margin-bottom: 0;
}
.param-key, .param-key-cell {
  color: var(--muted);
  font-size: 12px;
  font-weight: 700;
}
.param-value, .param-value-cell {
  color: var(--text);
  font-family: inherit;
}
.parameters-table .param-key-cell {
  width: 180px;
}
.parameters-table .param-value-cell {
  overflow-wrap: anywhere;
}
.swagger-panel {
  padding: 0;
  overflow: hidden;
}
.swagger-panel .swagger-ui {
  font-family: Inter, ui-sans-serif, system-ui, -apple-system, BlinkMacSystemFont, "Segoe UI", sans-serif;
}
.swagger-panel .swagger-ui .wrapper {
  padding: 0 18px;
}
.details {
  display: grid;
  grid-template-columns: 180px minmax(0, 1fr);
  gap: 10px 16px;
  margin: 0;
}
.details dt {
  color: var(--muted);
  font-weight: 650;
}
.details dd {
  margin: 0;
  min-width: 0;
  overflow-wrap: anywhere;
}
.modal-backdrop {
  position: fixed;
  inset: 0;
  z-index: 1000;
  display: flex;
  align-items: center;
  justify-content: center;
  padding: 18px;
  background: rgba(16, 24, 40, 0.45);
}
.modal-backdrop[hidden] {
  display: none;
}
.modal-dialog {
  width: min(520px, 100%);
  background: #fff;
  border-radius: 8px;
  box-shadow: 0 18px 48px rgba(16, 24, 40, 0.24);
  overflow: hidden;
}
.modal-header, .modal-footer {
  display: flex;
  align-items: center;
  gap: 12px;
  padding: 14px 16px;
  border-bottom: 1px solid var(--line);
}
.modal-header h2 {
  margin: 0;
}
.modal-close {
  margin-left: auto;
  border: 0;
  background: transparent;
  font-size: 26px;
  line-height: 1;
  cursor: pointer;
}
.modal-body {
  padding: 16px;
  white-space: pre-wrap;
}
.modal-footer {
  justify-content: flex-end;
  border-top: 1px solid var(--line);
  border-bottom: 0;
}
@media (max-width: 760px) {
  nav { gap: 12px; overflow-x: auto; }
  .grid.two, .grid.three, .row { grid-template-columns: 1fr; }
  .details { grid-template-columns: 1fr; }
  table { display: block; overflow-x: auto; }
}
"#;

/// The script of every page: confirmation dialogs and trials of the settings.
pub const JS: &'static str = r#"
function formBody(form) {
  return new URLSearchParams(new FormData(form));
}

function syncCertificateDefaultsCaFields() {
  const sourceForm = document.querySelector('form[data-test-url="/vpnman/settings/minica/test"]');
  const defaultsForm = document.querySelector('form[data-test-url="/vpnman/settings/minica/cert-defaults/test"]');
  if (!sourceForm || !defaultsForm) return;
  defaultsForm.querySelectorAll('.js-ca-shadow').forEach((field) => {
    const source = sourceForm.elements[field.dataset.source];
    if (source) field.value = source.value;
  });
}

function updateCaSelect(cas, selectedValue) {
  const select = document.querySelector('.js-ca-select');
  if (!select || !Array.isArray(cas)) return;
  const selected = selectedValue || select.value || select.dataset.current || '';
  select.innerHTML = '';
  if (!selected) {
    select.append(new Option('Select a CA', ''));
  }
  let found = false;
  cas.forEach((ca) => {
    const label = `${ca.common_name || ca.id} (${ca.id})`;
    const option = new Option(label, ca.id);
    if (ca.id === selected) {
      option.selected = true;
      found = true;
    }
    select.append(option);
  });
  if (selected && !found) {
    const option = new Option(selected, selected);
    option.selected = true;
    select.prepend(option);
  }
  syncCertificateDefaultsCaFields();
}

async function runInlineTest(form, options = {}) {
  syncCertificateDefaultsCaFields();
  const status = form.querySelector('.test-result');
  const url = form.dataset.testUrl;
  if (!status || !url) return { ok: false, message: 'Not OK: test is not configured' };
  if (!options.silent) {
    status.className = 'test-result muted';
    status.textContent = 'Testing...';
  }
  try {
    const response = await fetch(url, {
      method: 'POST',
      body: formBody(form),
      headers: {
        'Accept': 'application/json',
        'Content-Type': 'application/x-www-form-urlencoded;charset=UTF-8'
      }
    });
    const contentType = response.headers.get('content-type') || '';
    const result = contentType.includes('application/json')
      ? await response.json()
      : { ok: false, message: 'Not OK: ' + (await response.text()).slice(0, 160) };
    if (Array.isArray(result.cas)) updateCaSelect(result.cas);
    if (!options.silent) {
      status.className = result.ok ? 'test-result success' : 'test-result error';
      status.textContent = result.message;
    }
    return result;
  } catch (error) {
    const result = { ok: false, message: 'Not OK: ' + error };
    if (!options.silent) {
      status.className = 'test-result error';
      status.textContent = result.message;
    }
    return result;
  }
}

function modalConfirm(title, message, confirmText = 'Confirm') {
  const modal = document.getElementById('app-modal');
  const titleNode = document.getElementById('app-modal-title');
  const bodyNode = document.getElementById('app-modal-body');
  const confirmButton = modal.querySelector('[data-modal-confirm]');
  const cancelButton = modal.querySelector('[data-modal-cancel]');
  const closeButton = modal.querySelector('.modal-close');
  titleNode.textContent = title;
  bodyNode.textContent = message;
  confirmButton.textContent = confirmText;
  modal.hidden = false;
  confirmButton.focus();
  return new Promise((resolve) => {
    const finish = (value) => {
      modal.hidden = true;
      confirmButton.removeEventListener('click', onConfirm);
      cancelButton.removeEventListener('click', onCancel);
      closeButton.removeEventListener('click', onCancel);
      modal.removeEventListener('click', onBackdrop);
      document.removeEventListener('keydown', onKeydown);
      resolve(value);
    };
    const onConfirm = () => finish(true);
    const onCancel = () => finish(false);
    const onBackdrop = (event) => {
      if (event.target === modal) finish(false);
    };
    const onKeydown = (event) => {
      if (event.key === 'Escape') finish(false);
    };
    confirmButton.addEventListener('click', onConfirm);
    cancelButton.addEventListener('click', onCancel);
    closeButton.addEventListener('click', onCancel);
    modal.addEventListener('click', onBackdrop);
    document.addEventListener('keydown', onKeydown);
  });
}

document.querySelectorAll('.js-inline-test').forEach((button) => {
  button.addEventListener('click', () => runInlineTest(button.form));
});

document.querySelectorAll('.js-test-form').forEach((form) => {
  form.addEventListener('submit', async (event) => {
    if (form.dataset.confirmed === 'true') return;
    event.preventDefault();
    const result = await runInlineTest(form);
    const message = `${form.dataset.saveConfirm || 'Save changes?'}\n\nTest result: ${result.message}`;
    if (await modalConfirm('Confirm Save', message, 'Save')) {
      form.dataset.confirmed = 'true';
      form.submit();
    }
  });
});

document.querySelectorAll('.js-confirm-delete').forEach((form) => {
  form.addEventListener('submit', async (event) => {
    if (form.dataset.confirmed === 'true') return;
    event.preventDefault();
    if (await modalConfirm('Confirm Delete', form.dataset.confirm || 'Delete this item?', 'Delete')) {
      form.dataset.confirmed = 'true';
      form.submit();
    }
  });
});

const minicaForm = document.querySelector('form[data-test-url="/vpnman/settings/minica/test"]');
if (minicaForm) {
  ['base_url', 'username', 'password'].forEach((name) => {
    const field = minicaForm.elements[name];
    if (field) {
      field.addEventListener('change', () => runInlineTest(minicaForm, { silent: true }));
      field.addEventListener('blur', () => runInlineTest(minicaForm, { silent: true }));
    }
  });
  const caSelect = minicaForm.elements.default_ca_id;
  if (caSelect) caSelect.addEventListener('change', syncCertificateDefaultsCaFields);
}
syncCertificateDefaultsCaFields();
"#;

} // verus!
