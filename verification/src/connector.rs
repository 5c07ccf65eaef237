//! The decisions of the connector that links the dashboard to the
//! platform gateway: file locations, session tokens, request routing,
//! page rewriting, registration retries and the reconnection policy.

use vstd::prelude::*;
use base64::Engine;
use crate::json::{get_key, get_key_exec, JsonValue};
use crate::num::{nat_dec, parse_signed};
use crate::resources::{opt_view};
use crate::text::{chars_of, contains_seq, push_all, push_str, string_of};

verus! {

// ---------------------------------------------------------------------------
// Local files
// ---------------------------------------------------------------------------

/// `Path::join` on Unix: an absolute component replaces the path, else it
/// is appended after a `/` (none is added after an empty path or one that
/// already ends with `/`).
pub open spec fn path_join(base: Seq<char>, part: Seq<char>) -> Seq<char> {
    if part.len() > 0 && part[0] == '/' {
        part
    } else if base.len() == 0 || base.last() == '/' {
        base + part
    } else {
        base + "/"@ + part
    }
}

/// Joins a path component.
pub fn join_path(base: &str, part: &str) -> (r: String)
    ensures
        r@ == path_join(base@, part@),
{
    let b = chars_of(base);
    let p = chars_of(part);
    if p.len() > 0 && p[0] == '/' {
        return String::from_str(part);
    }
    let mut v = b;
    if v.len() > 0 && v[v.len() - 1] != '/' {
        push_str(&mut v, "/");
    }
    push_all(&mut v, p.as_slice());
    string_of(v.as_slice())
}

/// The home directory: `$HOME`, or `.` without one.
pub open spec fn home_spec(env_home: Option<Seq<char>>) -> Seq<char> {
    match env_home {
        Some(h) => h,
        None => "."@,
    }
}

/// The home directory from the value of `$HOME`, if set.
pub fn home_dir(env_home: Option<String>) -> (r: String)
    ensures
        r@ == home_spec(opt_view(env_home)),
{
    match env_home {
        Some(h) => h,
        None => String::from_str("."),
    }
}

/// The key directory: `$MATRIX_KEYS_DIR`, else `~/.matrix/keys`.
pub open spec fn keys_dir_spec(env_keys_dir: Option<Seq<char>>, home: Seq<char>) -> Seq<char> {
    match env_keys_dir {
        Some(d) => d,
        None => path_join(path_join(home, ".matrix"@), "keys"@),
    }
}

/// The key directory, from the value of `$MATRIX_KEYS_DIR` if set.
pub fn get_keys_dir(env_keys_dir: Option<String>, home: &str) -> (r: String)
    ensures
        r@ == keys_dir_spec(opt_view(env_keys_dir), home@),
{
    match env_keys_dir {
        Some(d) => d,
        None => join_path(join_path(home, ".matrix").as_str(), "keys"),
    }
}

/// `{connector_type}_{instance_id}{ext}`.
pub open spec fn instance_file(connector_type: Seq<char>, instance_id: Seq<char>, ext: Seq<char>) -> Seq<char> {
    connector_type + "_"@ + instance_id + ext
}

fn instance_file_name(connector_type: &str, instance_id: &str, ext: &str) -> (r: String)
    ensures
        r@ == instance_file(connector_type@, instance_id@, ext@),
{
    let mut v = chars_of(connector_type);
    push_str(&mut v, "_");
    push_str(&mut v, instance_id);
    push_str(&mut v, ext);
    string_of(v.as_slice())
}

/// The private key file of a connector instance, in the key directory.
pub fn get_private_key_path(keys_dir: &str, connector_type: &str, instance_id: &str) -> (r: String)
    ensures
        r@ == path_join(keys_dir@, instance_file(connector_type@, instance_id@, ".pem"@)),
{
    join_path(keys_dir, instance_file_name(connector_type, instance_id, ".pem").as_str())
}

/// The credentials file of a connector instance: under
/// `~/.matrix/credentials`.
pub fn get_credentials_path(home: &str, connector_type: &str, instance_id: &str) -> (r: String)
    ensures
        r@ == path_join(
            path_join(path_join(home@, ".matrix"@), "credentials"@),
            instance_file(connector_type@, instance_id@, ".json"@),
        ),
{
    let dir = join_path(join_path(home, ".matrix").as_str(), "credentials");
    join_path(dir.as_str(), instance_file_name(connector_type, instance_id, ".json").as_str())
}

// ---------------------------------------------------------------------------
// The liveview server
// ---------------------------------------------------------------------------

/// The address of the local liveview server: a Unix socket path or a
/// named pipe.
pub struct IpcAddr {
    pub name: String,
}

/// The liveview server's address, once the server has recorded it.
pub fn dioxus_ipc(slot: &Option<IpcAddr>) -> (r: &IpcAddr)
    requires
        slot is Some,
    ensures
        *slot == Some(*r),
{
    match slot {
        Some(a) => a,
        None => vstd::pervasive::unreached(),
    }
}

/// The page path requested from the liveview server: `/liveview` for the
/// root.
pub open spec fn proxy_target_spec(path: Seq<char>) -> Seq<char> {
    if path == "/"@ || path.len() == 0 {
        "/liveview"@
    } else {
        path
    }
}

/// The page path requested from the liveview server.
pub fn proxy_target(path: &str) -> (r: String)
    ensures
        r@ == proxy_target_spec(path@),
{
    let p = chars_of(path);
    if crate::text::eq_str(p.as_slice(), "/") || p.len() == 0 {
        String::from_str("/liveview")
    } else {
        String::from_str(path)
    }
}

/// Whether a content type is HTML (and the page gets the socket shim).
pub fn is_html(content_type: &str) -> (r: bool)
    ensures
        r == contains_seq(content_type@, "html"@),
{
    crate::text::contains_str(chars_of(content_type).as_slice(), "html")
}

/// The socket shim put into liveview pages: it carries the liveview's
/// socket traffic over the platform's channel protocol.
pub const WS_SHIM: &'static str = r#"<script>
// Matrix Phoenix Socket Shim for Dioxus LiveView
(function() {
  console.log('[MatrixWsShim] Installing WebSocket shim...');

  const PHX_VSN = '2.0.0';
  const SOCKET_STATES = {connecting: 0, open: 1, closing: 2, closed: 3};

  const NativeWebSocket = window.WebSocket;
  window.__MATRIX_NATIVE_WEBSOCKET__ = NativeWebSocket;

  class MatrixWebSocket {
    constructor(url) {
      this.url = url;
      this.readyState = SOCKET_STATES.connecting;
      this.onopen = null;
      this.onclose = null;
      this.onerror = null;
      this.onmessage = null;
      this._ref = 0;
      this._joinRef = null;
      this.binaryType = 'blob';
      this._eventListeners = {open: [], close: [], error: [], message: []};

      const urlObj = new URL(url, window.location.origin);
      const isLiveViewWs = urlObj.pathname.includes('/ws') || urlObj.pathname.includes('/live');

      if (!isLiveViewWs) {
        console.log('[MatrixWsShim] Non-LiveView WebSocket, using native:', url);
        return new NativeWebSocket(url);
      }

      this._wsPath = urlObj.pathname;
      console.log('[MatrixWsShim] LiveView WebSocket detected, path:', this._wsPath);
      this._waitForMatrixAndConnect();
    }

    _waitForMatrixAndConnect() {
      const checkMatrix = () => {
        if (window.__MATRIX_SESSION_TOKEN__ && window.__MATRIX_APP_ADDRESS__) {
          console.log('[MatrixWsShim] Matrix ready, connecting...');
          this._connectToMatrix();
        } else {
          setTimeout(checkMatrix, 50);
        }
      };
      checkMatrix();
    }

    _connectToMatrix() {
      const token = window.__MATRIX_SESSION_TOKEN__;
      const appAddress = window.__MATRIX_APP_ADDRESS__;

      let matrixHost = window.location.host;
      const baseTag = document.querySelector('base');
      if (baseTag && baseTag.href) {
        try {
          const baseUrl = new URL(baseTag.href);
          matrixHost = baseUrl.host;
        } catch (e) {}
      }

      const protocol = window.location.protocol === 'https:' ? 'wss:' : 'ws:';
      const phoenixUrl = protocol + '//' + matrixHost +
        '/api/app/ws/websocket?__st=' + encodeURIComponent(token) +
        '&app=' + encodeURIComponent(appAddress) +
        '&vsn=' + PHX_VSN;

      console.log('[MatrixWsShim] Connecting to Phoenix socket');

      this._socket = new NativeWebSocket(phoenixUrl);
      this._socket.binaryType = 'arraybuffer';

      this._socket.onopen = () => {
        console.log('[MatrixWsShim] Phoenix socket connected, joining channel');
        this._joinChannel();
      };

      this._socket.onclose = (event) => {
        this.readyState = SOCKET_STATES.closed;
        if (this._heartbeatInterval) clearInterval(this._heartbeatInterval);
        this._dispatchEvent('close', event);
      };

      this._socket.onerror = (event) => {
        this._dispatchEvent('error', event);
      };

      this._socket.onmessage = (event) => {
        this._handlePhoenixMessage(event.data);
      };
    }

    _joinChannel() {
      this._joinRef = String(++this._ref);
      const topic = 'app_ws:' + this._wsPath;
      const joinMsg = JSON.stringify([this._joinRef, String(++this._ref), topic, 'phx_join', {}]);
      console.log('[MatrixWsShim] Joining channel:', topic);
      this._socket.send(joinMsg);
    }

    _handlePhoenixMessage(data) {
      let msg;
      try { msg = JSON.parse(data); } catch (e) { return; }

      const [joinRef, ref, topic, event, payload] = msg;

      if (event === 'phx_reply' && joinRef === this._joinRef) {
        if (payload.status === 'ok') {
          console.log('[MatrixWsShim] Channel joined successfully');
          this.readyState = SOCKET_STATES.open;
          this._startHeartbeat();
          this._dispatchEvent('open', {type: 'open'});
        } else {
          this._dispatchEvent('error', new Error('Channel join failed'));
        }
      } else if (event === 'frame') {
        const frameData = payload.data;
        let messageData;
        try {
          const binary = atob(frameData);
          const bytes = new Uint8Array(binary.length);
          for (let i = 0; i < binary.length; i++) {
            bytes[i] = binary.charCodeAt(i);
          }
          messageData = bytes.buffer;
        } catch (e) {
          messageData = frameData;
        }
        this._dispatchEvent('message', {data: messageData, type: 'message'});
      } else if (event === 'close' || event === 'phx_close') {
        this.readyState = SOCKET_STATES.closed;
        this._dispatchEvent('close', {code: 1000, reason: 'closed'});
      } else if (event === 'phx_error') {
        this._dispatchEvent('error', new Error('Channel error'));
      }
    }

    _startHeartbeat() {
      this._heartbeatInterval = setInterval(() => {
        if (this.readyState !== SOCKET_STATES.open) return;
        const heartbeat = JSON.stringify([null, String(++this._ref), 'phoenix', 'heartbeat', {}]);
        this._socket.send(heartbeat);
      }, 30000);
    }

    send(data) {
      if (this.readyState !== SOCKET_STATES.open) return;

      const topic = 'app_ws:' + this._wsPath;
      let framePayload;

      if (data instanceof ArrayBuffer || data instanceof Uint8Array) {
        const bytes = new Uint8Array(data);
        let binary = '';
        for (let i = 0; i < bytes.length; i++) {
          binary += String.fromCharCode(bytes[i]);
        }
        framePayload = {data: btoa(binary), type: 'binary'};
      } else {
        const str = String(data);
        const bytes = new TextEncoder().encode(str);
        let binary = '';
        for (let i = 0; i < bytes.length; i++) {
          binary += String.fromCharCode(bytes[i]);
        }
        framePayload = {data: btoa(binary), type: 'text'};
      }

      const msg = JSON.stringify([this._joinRef, String(++this._ref), topic, 'frame', framePayload]);
      this._socket.send(msg);
    }

    close(code, reason) {
      if (this.readyState === SOCKET_STATES.closed) return;
      this.readyState = SOCKET_STATES.closing;
      if (this._heartbeatInterval) clearInterval(this._heartbeatInterval);
      this._socket.close(code || 1000, reason || '');
    }

    addEventListener(type, listener) {
      this._eventListeners[type] = this._eventListeners[type] || [];
      this._eventListeners[type].push(listener);
    }

    removeEventListener(type, listener) {
      if (this._eventListeners[type]) {
        this._eventListeners[type] = this._eventListeners[type].filter(l => l !== listener);
      }
    }

    _dispatchEvent(type, event) {
      const handler = this['on' + type];
      if (handler) handler.call(this, event);
      if (this._eventListeners[type]) {
        this._eventListeners[type].forEach(l => l.call(this, event));
      }
    }
  }

  window.WebSocket = MatrixWebSocket;
  console.log('[MatrixWsShim] WebSocket constructor replaced');
})();
</script>"#;

/// The socket URL function that replaces the liveview's own.
pub const WS_URL_FUNCTION: &'static str = r#"function __dioxusGetWsUrl(path) {
      let loc = window.location;
      let new_url = loc.protocol === "https:" ? "wss:" : "ws:";
      new_url += "//" + loc.host + path;
      console.log('[Dioxus] WebSocket URL:', new_url);
      return new_url;
    }"#;

/// The text before and after the first match, in a page, of the
/// liveview's socket URL function (the pattern `function __dioxusGetWsUrl\\(path\\) \\{[\\s\\S]*?new_url \\+= "\\/\\/" \\+ loc\\.host \\+ path;[\\s\\S]*?return new_url;[\\s\\S]*?\\}`).
pub uninterp spec fn ws_url_function_split(html: Seq<char>) -> Option<(Seq<char>, Seq<char>)>;

/// `Regex::find` of the socket URL function pattern, split around the
/// match; the contract names the split and states no more of it.
#[verifier::external_body]
fn split_at_ws_url_function(html: &str) -> (r: Option<(String, String)>)
    ensures
        r matches Some((a, b)) ==> ws_url_function_split(html@) == Some((a@, b@)),
        r is None ==> ws_url_function_split(html@) is None,
{
    let re = regex::Regex::new(r#"function __dioxusGetWsUrl\(path\) \{[\s\S]*?new_url \+= "\/\/" \+ loc\.host \+ path;[\s\S]*?return new_url;[\s\S]*?\}"#).unwrap();
    match re.find(html) {
        Some(m) => Some((html[..m.start()].to_string(), html[m.end()..].to_string())),
        None => None,
    }
}

/// Index of the first occurrence of `p` in `s` (`str::find`, counted in
/// characters).
pub open spec fn first_occurrence(s: Seq<char>, p: Seq<char>) -> Option<int> {
    if contains_seq(s, p) {
        Some(choose|i: int| crate::text::occurs_at(s, p, i) && forall|j: int| 0 <= j < i ==> !crate::text::occurs_at(s, p, j))
    } else {
        None
    }
}

proof fn lemma_first_occurrence(s: Seq<char>, p: Seq<char>, i: int)
    requires
        crate::text::occurs_at(s, p, i),
        forall|j: int| 0 <= j < i ==> !crate::text::occurs_at(s, p, j),
    ensures
        first_occurrence(s, p) == Some(i),
{
    assert(contains_seq(s, p));
    let k = choose|k: int| crate::text::occurs_at(s, p, k) && forall|j: int| 0 <= j < k ==> !crate::text::occurs_at(s, p, j);
    assert(crate::text::occurs_at(s, p, k) && forall|j: int| 0 <= j < k ==> !crate::text::occurs_at(s, p, j));
    if k < i {
        assert(!crate::text::occurs_at(s, p, k));
    }
    if k > i {
        assert(!crate::text::occurs_at(s, p, i));
    }
}

/// Position of the first occurrence of `p` in `s`.
pub fn find_seq(s: &[char], p: &[char]) -> (r: Option<usize>)
    ensures
        match r {
            Some(i) => first_occurrence(s@, p@) == Some(i as int) && i + p@.len() <= s@.len(),
            None => first_occurrence(s@, p@) is None,
        },
{
    let mut i: usize = 0;
    loop
        invariant
            i <= s@.len(),
            forall|j: int| 0 <= j < i ==> !crate::text::occurs_at(s@, p@, j),
        decreases s@.len() - i,
    {
        if crate::text::occurs_at_exec(s, p, i) {
            proof {
                lemma_first_occurrence(s@, p@, i as int);
            }
            return Some(i);
        }
        if i == s.len() {
            assert(!contains_seq(s@, p@)) by {
                assert forall|j: int| !crate::text::occurs_at(s@, p@, j) by {
                    if 0 <= j && j + p@.len() <= s@.len() {
                        assert(j <= i);
                    }
                }
            }
            return None;
        }
        i += 1;
    }
}

/// Inserts the socket shim before `</head>`, else before `<body`.
pub open spec fn insert_shim(t: Seq<char>) -> Seq<char> {
    match first_occurrence(t, "</head>"@) {
        Some(i) => t.take(i) + WS_SHIM@ + t.skip(i),
        None => match first_occurrence(t, "<body"@) {
            Some(j) => t.take(j) + WS_SHIM@ + t.skip(j),
            None => t,
        },
    }
}

/// A liveview page as the platform serves it: where the page has the
/// liveview's socket URL function, that function is replaced and the
/// socket shim inserted; other pages are unchanged.
pub open spec fn rewrite_spec(html: Seq<char>) -> Seq<char> {
    match ws_url_function_split(html) {
        None => html,
        Some((a, b)) => insert_shim(a + WS_URL_FUNCTION@ + b),
    }
}

fn insert_at(t: &Vec<char>, i: usize, what: &str) -> (r: Vec<char>)
    requires
        i <= t@.len(),
    ensures
        r@ == t@.take(i as int) + what@ + t@.skip(i as int),
{
    let mut v = crate::json::slice_chars(t.as_slice(), 0, i);
    push_str(&mut v, what);
    push_all(&mut v, crate::json::slice_chars(t.as_slice(), i, t.len()).as_slice());
    assert(t@.subrange(0, i as int) =~= t@.take(i as int));
    assert(t@.subrange(i as int, t@.len() as int) =~= t@.skip(i as int));
    v
}

/// Replaces the liveview's socket URL function and inserts the socket
/// shim into a page.
pub fn rewrite_dioxus_websocket_url(html: &str) -> (r: String)
    ensures
        r@ == rewrite_spec(html@),
{
    match split_at_ws_url_function(html) {
        None => String::from_str(html),
        Some((a, b)) => {
            let mut t = chars_of(a.as_str());
            push_str(&mut t, WS_URL_FUNCTION);
            push_all(&mut t, chars_of(b.as_str()).as_slice());
            let head = chars_of("</head>");
            let body = chars_of("<body");
            let out = match find_seq(t.as_slice(), head.as_slice()) {
                Some(i) => insert_at(&t, i, WS_SHIM),
                None => match find_seq(t.as_slice(), body.as_slice()) {
                    Some(j) => insert_at(&t, j, WS_SHIM),
                    None => t,
                },
            };
            string_of(out.as_slice())
        },
    }
}

// ---------------------------------------------------------------------------
// Session tokens
// ---------------------------------------------------------------------------

/// Byte length of the UTF-8 encoding of a text.
pub open spec fn utf8_len(s: Seq<char>) -> nat {
    crate::terminal::blen(s)
}

/// Pads base64 text to a multiple of four bytes (`==` or `=`).
pub open spec fn pad_base64(s: Seq<char>) -> Seq<char> {
    if utf8_len(s) % 4 == 2 {
        s + "=="@
    } else if utf8_len(s) % 4 == 3 {
        s + "="@
    } else {
        s
    }
}

fn pad_base64_exec(s: Vec<char>) -> (r: Vec<char>)
    ensures
        r@ == pad_base64(s@),
{
    let n = crate::terminal::blen_exec(s.as_slice());
    let mut v = s;
    if n % 4 == 2 {
        push_str(&mut v, "==");
    } else if n % 4 == 3 {
        push_str(&mut v, "=");
    }
    v
}

/// The text before the first `.` (all of it without one).
pub open spec fn first_part(s: Seq<char>) -> Seq<char> {
    match crate::text::first_index_of(s, '.') {
        Some(i) => s.take(i),
        None => s,
    }
}

/// The text between the first and the second `.`, if there is a first.
pub open spec fn second_part(s: Seq<char>) -> Option<Seq<char>> {
    match crate::text::first_index_of(s, '.') {
        Some(i) => Some(first_part(s.skip(i + 1))),
        None => None,
    }
}

/// base64url turned into standard base64 (`-` to `+`, `_` to `/`).
pub open spec fn url_to_standard(s: Seq<char>) -> Seq<char> {
    Seq::new(s.len(), |i: int| if s[i] == '-' { '+' } else if s[i] == '_' { '/' } else { s[i] })
}

fn first_part_exec(s: &[char]) -> (r: Vec<char>)
    ensures
        r@ == first_part(s@),
{
    match crate::text::find_char(s, '.') {
        Some(i) => {
            let v = crate::json::slice_chars(s, 0, i);
            assert(v@ =~= s@.take(i as int));
            v
        },
        None => crate::json::slice_chars(s, 0, s.len()),
    }
}

/// Maps base64url characters to standard base64 (`-` to `+`, `_` to `/`).
fn url_to_standard_exec(first: &[char]) -> (r: Vec<char>)
    ensures
        r@ == url_to_standard(first@),
{
    let mut v: Vec<char> = Vec::new();
    let mut i: usize = 0;
    while i < first.len()
        invariant
            i <= first@.len(),
            v@ == url_to_standard(first@).take(i as int),
        decreases first@.len() - i,
    {
        let c = first[i];
        v.push(if c == '-' { '+' } else if c == '_' { '/' } else { c });
        i += 1;
        assert(v@ =~= url_to_standard(first@).take(i as int));
    }
    assert(v@ =~= url_to_standard(first@));
    v
}

/// The payload of a sandbox token (`base64url(payload).signature`) as
/// padded standard base64.
pub fn token_payload_base64(token: &str) -> (r: String)
    ensures
        r@ == pad_base64(url_to_standard(first_part(token@))),
{
    let first = first_part_exec(chars_of(token).as_slice());
    let v = url_to_standard_exec(first.as_slice());
    string_of(pad_base64_exec(v).as_slice())
}

/// The payload segment of a JWT (`header.payload.signature`, base64url)
/// as padded standard base64.
pub fn jwt_payload_base64(token: &str) -> (r: Option<String>)
    ensures
        match second_part(token@) {
            Some(p) => r matches Some(t) && t@ == pad_base64(url_to_standard(p)),
            None => r is None,
        },
{
    let t = chars_of(token);
    match crate::text::find_char(t.as_slice(), '.') {
        Some(i) => {
            let n = t.len();
            assert(i < n);
            let rest = crate::json::slice_chars(t.as_slice(), i + 1, t.len());
            assert(rest@ =~= t@.skip(i + 1));
            let p = first_part_exec(rest.as_slice());
            let v = url_to_standard_exec(p.as_slice());
            Some(string_of(pad_base64_exec(v).as_slice()))
        },
        None => None,
    }
}

/// Standard base64 decoding (with padding), `None` on malformed input.
pub uninterp spec fn base64_decoded(s: Seq<char>) -> Option<Seq<u8>>;

/// `base64::engine::general_purpose::STANDARD.decode`; the contract names
/// the decoding and states no more of it.
#[verifier::external_body]
pub(crate) fn decode_base64(s: &str) -> (r: Option<Vec<u8>>)
    ensures
        r matches Some(b) ==> base64_decoded(s@) == Some(b@),
        r is None ==> base64_decoded(s@) is None,
{
    base64::engine::general_purpose::STANDARD.decode(s).ok()
}

/// Standard base64 encoding (with padding).
pub uninterp spec fn base64_encoded(b: Seq<u8>) -> Seq<char>;

/// `base64::engine::general_purpose::STANDARD.encode`; the contract names
/// the encoding and states that decoding it gives the bytes back. It
/// panics only where the encoded length overflows `usize`, which no slice
/// of at most `isize::MAX` bytes reaches.
#[verifier::external_body]
fn encode_base64(data: &[u8]) -> (r: String)
    requires
        data@.len() <= isize::MAX,
    ensures
        r@ == base64_encoded(data@),
        base64_decoded(r@) == Some(data@),
{
    base64::engine::general_purpose::STANDARD.encode(data)
}

/// `String::from_utf8`: the text where the bytes are UTF-8.
#[verifier::external_body]
fn utf8_text(data: &[u8]) -> (r: Option<String>)
    ensures
        r is Some <==> vstd::utf8::valid_utf8(data@),
        r matches Some(s) ==> s@ == vstd::utf8::decode_utf8(data@),
{
    String::from_utf8(data.to_vec()).ok()
}

/// The bytes a sandbox token's payload decodes to.
pub open spec fn token_payload_spec(token: Seq<char>) -> Option<Seq<u8>> {
    base64_decoded(pad_base64(url_to_standard(first_part(token))))
}

/// Decodes the payload of a sandbox token (`base64url(payload).signature`);
/// `None` where it is not base64.
pub fn token_payload_bytes(token: &str) -> (r: Option<Vec<u8>>)
    ensures
        match token_payload_spec(token@) {
            Some(b) => r matches Some(v) && v@ == b,
            None => r is None,
        },
{
    let p = token_payload_base64(token);
    decode_base64(p.as_str())
}

/// The bytes a JWT's payload segment decodes to.
pub open spec fn jwt_payload_spec(token: Seq<char>) -> Option<Seq<u8>> {
    match second_part(token) {
        Some(p) => base64_decoded(pad_base64(url_to_standard(p))),
        None => None,
    }
}

/// Decodes the payload segment of a JWT (`header.payload.signature`);
/// `None` without one or where it is not base64.
pub fn jwt_payload_bytes(token: &str) -> (r: Option<Vec<u8>>)
    ensures
        match jwt_payload_spec(token@) {
            Some(b) => r matches Some(v) && v@ == b,
            None => r is None,
        },
{
    match jwt_payload_base64(token) {
        Some(p) => decode_base64(p.as_str()),
        None => None,
    }
}

/// A frame from the platform as the local socket receives it: text that
/// is base64 is decoded, anything else is passed on as it came.
pub open spec fn frame_to_backend_spec(data: Seq<u8>) -> Seq<u8> {
    if vstd::utf8::valid_utf8(data) {
        match base64_decoded(vstd::utf8::decode_utf8(data)) {
            Some(b) => b,
            None => data,
        }
    } else {
        data
    }
}

/// The bytes forwarded to the local socket for a frame from the platform.
pub fn frame_to_backend(data: &[u8]) -> (r: Vec<u8>)
    ensures
        r@ == frame_to_backend_spec(data@),
{
    match utf8_text(data) {
        Some(s) => match decode_base64(s.as_str()) {
            Some(b) => b,
            None => vstd::slice::slice_to_vec(data),
        },
        None => vstd::slice::slice_to_vec(data),
    }
}

/// The bytes of the frame sent to the platform for data from the local
/// socket: its base64 text. Relayed back by the platform, that frame gives
/// the local socket the same data.
pub fn frame_to_platform(data: &[u8]) -> (r: Vec<u8>)
    requires
        data@.len() <= isize::MAX,
    ensures
        r@ == vstd::utf8::encode_utf8(base64_encoded(data@)),
        frame_to_backend_spec(r@) == data@,
{
    let t = encode_base64(data);
    let r = vstd::slice::slice_to_vec(t.as_str().as_bytes());
    proof {
        vstd::utf8::encode_utf8_valid_utf8(t@);
        vstd::utf8::encode_utf8_decode_utf8(t@);
    }
    r
}

/// `Value::as_i64`: an integer that fits in `i64`.
pub open spec fn as_i64(v: JsonValue) -> Option<int> {
    match v {
        JsonValue::Number(t) => parse_signed(t@, i64::MIN as int, i64::MAX as int),
        _ => None,
    }
}

/// The `exp` claim of token claims, as a Unix time.
pub fn exp_claim(claims: &JsonValue) -> (r: Option<i64>)
    ensures
        match r {
            Some(e) => get_key(*claims, "exp"@) matches Some(v) && as_i64(v) == Some(e as int),
            None => !(get_key(*claims, "exp"@) matches Some(v) && as_i64(v) is Some),
        },
{
    let k = chars_of("exp");
    match get_key_exec(claims, k.as_slice()) {
        Some(JsonValue::Number(t)) => crate::num::parse_i64(chars_of(t.as_str()).as_slice()),
        _ => None,
    }
}

/// Seconds until a token expires.
pub fn remaining_secs(exp: i64, now: i64) -> (r: i64)
    requires
        i64::MIN <= exp - now <= i64::MAX,
    ensures
        r == exp - now,
{
    exp - now
}

/// Seconds left at `now` until `exp`.
pub open spec fn remaining_at(exp: int, now: int) -> int {
    exp - now
}

/// The integer `exp` claim of token claims.
pub open spec fn exp_of(claims: JsonValue) -> Option<int> {
    match get_key(claims, "exp"@) {
        Some(v) => as_i64(v),
        None => None,
    }
}

/// Seconds until the token with these claims expires at the clock reading
/// `now` (Unix seconds, `None` before 1970): `None` without an integer
/// `exp` claim, without a reading, with a reading beyond `i64` seconds, or
/// where the difference does not fit in `i64`.
pub open spec fn claims_remaining_spec(claims: JsonValue, now: Option<u64>) -> Option<int> {
    match (exp_of(claims), now) {
        (Some(e), Some(n)) => if n <= i64::MAX && i64::MIN <= remaining_at(e, n as int) {
            Some(remaining_at(e, n as int))
        } else {
            None
        },
        _ => None,
    }
}

/// Seconds until the token with these claims expires, given the clock
/// reading `now`.
pub fn claims_remaining_at(claims: &JsonValue, now: Option<u64>) -> (r: Option<i64>)
    ensures
        match r {
            Some(d) => claims_remaining_spec(*claims, now) == Some(d as int),
            None => claims_remaining_spec(*claims, now) is None,
        },
{
    let exp = match exp_claim(claims) {
        Some(e) => e,
        None => return None,
    };
    let now = match now {
        Some(n) => n,
        None => return None,
    };
    if now > i64::MAX as u64 {
        return None;
    }
    let now = now as i64;
    if exp < i64::MIN + now {
        return None;
    }
    let d = remaining_secs(exp, now);
    assert(d == remaining_at(exp_of(*claims)->Some_0, now as int));
    Some(d)
}

/// Seconds until the token with these claims expires, by the clock:
/// `claims_remaining_at` with the clock's reading. Whether the clock gives
/// a reading is the clock's; with one, the result is that of the reading.
pub fn claims_remaining_secs(claims: &JsonValue) -> (r: Option<i64>)
    ensures
        exp_of(*claims) is None ==> r is None,
        exists|now: Option<u64>| match r {
            Some(d) => #[trigger] claims_remaining_spec(*claims, now) == Some(d as int),
            None => claims_remaining_spec(*claims, now) is None,
        },
        r matches Some(d) ==> exp_of(*claims) matches Some(e) && exists|now: int|
            0 <= now <= i64::MAX && d == #[trigger] remaining_at(e, now),
{
    let now = match crate::chat::system_clock() {
        Ok(n) => Some(n),
        Err(_) => None,
    };
    claims_remaining_at(claims, now)
}

/// Attempts the token refresh makes before it waits for the next round.
pub const TOKEN_REFRESH_MAX_RETRIES: u32 = 3;

/// What the token-refresh loop does before a round.
#[derive(Clone, Copy, PartialEq, Eq, Structural, Debug)]
pub enum RefreshPlan {
    /// No token yet: look again after `secs`.
    WaitForToken { secs: u64 },
    /// The token's expiry is unknown or past: look again after `secs`.
    TryLater { secs: u64 },
    /// Refresh after a delay drawn from the `remaining` seconds of the
    /// token's life.
    Schedule { remaining: u64 },
}

/// The plan of a token-refresh round: wait 5 s for a token, 30 s where
/// its remaining life is unknown or not positive, else schedule from it.
pub open spec fn refresh_plan_spec(token_empty: bool, remaining: Option<i64>) -> RefreshPlan {
    if token_empty {
        RefreshPlan::WaitForToken { secs: 5 }
    } else {
        match remaining {
            Some(d) => if d > 0 { RefreshPlan::Schedule { remaining: d as u64 } } else { RefreshPlan::TryLater { secs: 30 } },
            None => RefreshPlan::TryLater { secs: 30 },
        }
    }
}

/// Plans a round of the token refresh from whether there is a token and
/// the seconds it has left (`claims_remaining_secs` of its payload).
pub fn refresh_plan(token_empty: bool, remaining: Option<i64>) -> (r: RefreshPlan)
    ensures
        r == refresh_plan_spec(token_empty, remaining),
{
    if token_empty {
        return RefreshPlan::WaitForToken { secs: 5 };
    }
    match remaining {
        Some(d) => if d > 0 { RefreshPlan::Schedule { remaining: d as u64 } } else { RefreshPlan::TryLater { secs: 30 } },
        None => RefreshPlan::TryLater { secs: 30 },
    }
}

/// After refresh attempt `attempt` (from 0) failed: the seconds to wait
/// before the next attempt, or `None` where that was the last.
pub fn refresh_retry_wait(attempt: u32) -> (r: Option<u64>)
    requires
        attempt < TOKEN_REFRESH_MAX_RETRIES,
    ensures
        r == (if attempt + 1 < TOKEN_REFRESH_MAX_RETRIES { Some(5u64) } else { None }),
{
    if attempt + 1 < TOKEN_REFRESH_MAX_RETRIES { Some(5) } else { None }
}

/// The user's display name from token claims: the `email` claim, or the
/// `preferred_username` claim where there is no `email`, if it is text.
pub open spec fn display_name_spec(claims: JsonValue) -> Option<Seq<char>> {
    let v = match get_key(claims, "email"@) {
        Some(e) => Some(e),
        None => get_key(claims, "preferred_username"@),
    };
    match v {
        Some(JsonValue::Str(s)) => Some(s@),
        _ => None,
    }
}

/// The user's display name from token claims.
pub fn display_name(claims: &JsonValue) -> (r: Option<String>)
    ensures
        opt_view(r) == display_name_spec(*claims),
{
    let e = chars_of("email");
    let u = chars_of("preferred_username");
    let v = match get_key_exec(claims, e.as_slice()) {
        Some(x) => Some(x),
        None => get_key_exec(claims, u.as_slice()),
    };
    match v {
        Some(JsonValue::Str(s)) => Some(s.clone()),
        _ => None,
    }
}

/// Percent-decoding as UTF-8 (`urlencoding::decode`); `None` where the
/// decoded bytes are not UTF-8.
pub uninterp spec fn url_decoded(s: Seq<char>) -> Option<Seq<char>>;

/// `urlencoding::decode`; the contract names the decoding and states that
/// text without `%` comes back unchanged, which the crate's source shows.
#[verifier::external_body]
fn decode_url(s: &str) -> (r: Option<String>)
    ensures
        r matches Some(t) ==> url_decoded(s@) == Some(t@),
        r is None ==> url_decoded(s@) is None,
        r is None ==> crate::text::has_char(s@, '%'),
        r matches Some(t) ==> (!crate::text::has_char(s@, '%') ==> t@ == s@),
{
    match urlencoding::decode(s) {
        Ok(t) => Some(t.into_owned()),
        Err(_) => None,
    }
}

/// The `&`-separated pairs of a query string (`str::split('&')`).
#[verifier::opaque]
pub open spec fn query_pairs(q: Seq<char>) -> Seq<Seq<char>>
    decreases q.len(),
{
    match crate::text::first_index_of(q, '&') {
        Some(i) => if 0 <= i < q.len() { seq![q.take(i)] + query_pairs(q.skip(i + 1)) } else { seq![q] },
        None => seq![q],
    }
}

/// The session token a pair carries: the decoded value of `__st=`, if not
/// empty.
pub open spec fn pair_token(pair: Seq<char>) -> Option<Seq<char>> {
    if crate::text::starts_with(pair, "__st="@) {
        let d = match url_decoded(pair.skip(5)) {
            Some(t) => t,
            None => Seq::empty(),
        };
        if d.len() > 0 { Some(d) } else { None }
    } else {
        None
    }
}

/// The session tokens of a query string, in order.
pub open spec fn tokens_of(pairs: Seq<Seq<char>>) -> Seq<Seq<char>>
    decreases pairs.len(),
{
    if pairs.len() == 0 {
        Seq::empty()
    } else {
        match pair_token(pairs[0]) {
            Some(t) => seq![t] + tokens_of(pairs.drop_first()),
            None => tokens_of(pairs.drop_first()),
        }
    }
}

proof fn lemma_pairs_split(q: Seq<char>, i: int)
    requires
        crate::text::first_index_of(q, '&') == Some(i),
        0 <= i < q.len(),
    ensures
        query_pairs(q) == seq![q.take(i)] + query_pairs(q.skip(i + 1)),
{
    reveal(query_pairs);
}

proof fn lemma_pairs_last(q: Seq<char>)
    requires
        crate::text::first_index_of(q, '&') is None,
    ensures
        query_pairs(q) == seq![q],
{
    reveal(query_pairs);
}

proof fn lemma_tokens_cons(p: Seq<char>, rest: Seq<Seq<char>>)
    ensures
        tokens_of(seq![p] + rest) == (match pair_token(p) {
            Some(t) => seq![t] + tokens_of(rest),
            None => tokens_of(rest),
        }),
{
    assert((seq![p] + rest).drop_first() =~= rest);
    assert((seq![p] + rest)[0] == p);
}

/// The texts of a list of strings.
pub open spec fn texts(v: Seq<String>) -> Seq<Seq<char>> {
    Seq::new(v.len(), |i: int| v[i]@)
}

fn push_text(out: &mut Vec<String>, t: String)
    ensures
        texts(final(out)@) == texts(old(out)@).push(t@),
{
    out.push(t);
    assert(texts(out@) =~= texts(old(out)@).push(t@));
}

/// The session token of one query pair, if it carries one.
fn pair_token_exec(pair: &[char]) -> (r: Option<String>)
    ensures
        opt_view(r) == pair_token(pair@),
{
    if crate::text::starts_with_str(pair, "__st=") {
        proof {
            reveal_strlit("__st=");
        }
        let value = crate::json::slice_chars(pair, 5, pair.len());
        assert(value@ =~= pair@.skip(5));
        let d = match decode_url(string_of(value.as_slice()).as_str()) {
            Some(t) => t,
            None => String::new(),
        };
        if !d.as_str().is_empty() {
            Some(d)
        } else {
            None
        }
    } else {
        None
    }
}

/// The session tokens (`__st` parameters) of a socket's query string, in
/// order; each is captured as the user's session.
pub fn session_tokens(query: &str) -> (r: Vec<String>)
    ensures
        texts(r@) == (if query@.len() == 0 { Seq::empty() } else { tokens_of(query_pairs(query@)) }),
{
    let mut out: Vec<String> = Vec::new();
    let q = chars_of(query);
    assert(texts(out@) =~= Seq::<Seq<char>>::empty());
    if q.len() == 0 {
        return out;
    }
    let mut start: usize = 0;
    let ghost target = tokens_of(query_pairs(q@));
    assert(q@.skip(0) =~= q@);
    assert(texts(out@) + target =~= target);
    loop
        invariant
            start <= q@.len(),
            q@ == query@,
            query@.len() > 0,
            target == tokens_of(query_pairs(q@)),
            target == texts(out@) + tokens_of(query_pairs(q@.skip(start as int))),
        decreases q@.len() - start,
    {
        let rest = crate::json::slice_chars(q.as_slice(), start, q.len());
        assert(rest@ =~= q@.skip(start as int));
        match crate::text::find_char(rest.as_slice(), '&') {
            Some(i) => {
                let pair = crate::json::slice_chars(rest.as_slice(), 0, i);
                proof {
                    assert(pair@ =~= rest@.take(i as int));
                    assert(rest@.skip(i + 1) =~= q@.skip(start + i + 1));
                    lemma_pairs_split(rest@, i as int);
                    lemma_tokens_cons(pair@, query_pairs(q@.skip(start + i + 1)));
                }
                let ghost before = texts(out@);
                match pair_token_exec(pair.as_slice()) {
                    Some(t) => {
                        push_text(&mut out, t);
                        assert(before + (seq![pair_token(pair@)->Some_0] + tokens_of(query_pairs(q@.skip(start + i + 1))))
                            =~= texts(out@) + tokens_of(query_pairs(q@.skip(start + i + 1))));
                    },
                    None => {},
                }
                start = start + i + 1;
            },
            None => {
                proof {
                    lemma_pairs_last(rest@);
                    lemma_tokens_cons(rest@, Seq::empty());
                    assert(seq![rest@] + Seq::<Seq<char>>::empty() =~= seq![rest@]);
                }
                let ghost before = texts(out@);
                match pair_token_exec(rest.as_slice()) {
                    Some(t) => {
                        push_text(&mut out, t);
                        assert(before + (seq![pair_token(rest@)->Some_0] + Seq::<Seq<char>>::empty()) =~= texts(out@));
                    },
                    None => {
                        assert(before + Seq::<Seq<char>>::empty() =~= texts(out@));
                    },
                }
                return out;
            },
        }
    }
}

// ---------------------------------------------------------------------------
// Sockets and registration
// ---------------------------------------------------------------------------

/// The liveview socket path (`/ws` by default) and the URI the connector
/// opens on the local server.
pub open spec fn ws_target_spec(path: Seq<char>, query: Seq<char>) -> (Seq<char>, Seq<char>) {
    let p = if path.len() == 0 { "/ws"@ } else { path };
    (p, if query.len() == 0 { "ws://localhost"@ + p } else { "ws://localhost"@ + p + "?"@ + query })
}

/// The socket path and URI for a socket request.
pub fn ws_target(path: &str, query: &str) -> (r: (String, String))
    ensures
        r.0@ == ws_target_spec(path@, query@).0,
        r.1@ == ws_target_spec(path@, query@).1,
{
    let p: String = if path.is_empty() { String::from_str("/ws") } else { String::from_str(path) };
    let mut uri = chars_of("ws://localhost");
    push_all(&mut uri, chars_of(p.as_str()).as_slice());
    if !query.is_empty() {
        push_str(&mut uri, "?");
        push_str(&mut uri, query);
    }
    (p, string_of(uri.as_slice()))
}

/// How opening a socket to the local server went.
pub enum WsConnect {
    /// The connection to the server's local socket failed, with the error text.
    IpcFailed(String),
    /// The WebSocket handshake failed, with the error text.
    HandshakeFailed(String),
    /// Connected and upgraded.
    Connected,
}

/// The one reply to a socket-open request.
pub struct WsOpenReply {
    pub connection_id: String,
    pub success: bool,
    pub error: String,
    /// Whether the connection is recorded (before the reply goes out), so
    /// that frames and the close request reach it.
    pub record: bool,
}

/// The error text of a failed socket-open.
pub open spec fn ws_open_error(outcome: WsConnect) -> Seq<char> {
    match outcome {
        WsConnect::IpcFailed(e) => "Failed to connect: "@ + e@,
        WsConnect::HandshakeFailed(e) => "Failed to connect: "@ + e@,
        WsConnect::Connected => Seq::empty(),
    }
}

/// The reply to the socket-open request `connection_id`: success, and the
/// connection recorded, exactly when the socket connected and the
/// handshake succeeded; else `Failed to connect: ` and the error.
pub fn ws_open_reply(connection_id: &str, outcome: &WsConnect) -> (r: WsOpenReply)
    ensures
        r.connection_id@ == connection_id@,
        r.success == outcome is Connected,
        r.record == outcome is Connected,
        r.error@ == ws_open_error(*outcome),
{
    match outcome {
        WsConnect::IpcFailed(e) | WsConnect::HandshakeFailed(e) => {
            let mut v = chars_of("Failed to connect: ");
            push_all(&mut v, chars_of(e.as_str()).as_slice());
            WsOpenReply {
                connection_id: String::from_str(connection_id),
                success: false,
                error: string_of(v.as_slice()),
                record: false,
            }
        },
        WsConnect::Connected => WsOpenReply {
            connection_id: String::from_str(connection_id),
            success: true,
            error: String::new(),
            record: true,
        },
    }
}

/// The wait before registration attempt `attempt` (from 1): doubling from
/// 500 ms, at most 3000 ms.
pub open spec fn retry_delay_spec(attempt: nat) -> nat {
    let d = 500 * vstd::arithmetic::power2::pow2((attempt - 1) as nat);
    if d < 3000 { d } else { 3000 }
}

/// The wait in milliseconds before registration attempt `attempt`.
pub fn ott_retry_delay_ms(attempt: u32) -> (r: u64)
    requires
        1 <= attempt <= 56,
    ensures
        r == retry_delay_spec(attempt as nat),
{
    let mut p: u64 = 1;
    let mut k: u32 = 0;
    proof {
        vstd::arithmetic::power2::lemma2_to64();
    }
    while k < attempt - 1
        invariant
            k <= attempt - 1,
            attempt <= 56,
            p == vstd::arithmetic::power2::pow2(k as nat),
            p <= 0x80000000000000,
        decreases attempt - 1 - k,
    {
        proof {
            vstd::arithmetic::power2::lemma_pow2_adds(k as nat, 1);
            if k + 1 < 55 {
                vstd::arithmetic::power2::lemma_pow2_strictly_increases((k + 1) as nat, 55);
            }
            vstd::arithmetic::power2::lemma2_to64();
            vstd::arithmetic::power2::lemma2_to64_rest();
        }
        assert(vstd::arithmetic::power2::pow2((k + 1) as nat) == p * 2);
        assert(vstd::arithmetic::power2::pow2((k + 1) as nat) <= 0x80000000000000);
        p = p * 2;
        k += 1;
    }
    let d = 500 * p;
    if d < 3000 { d } else { 3000 }
}

/// The retry waits grow with the attempt and never exceed three seconds.
pub proof fn lemma_retry_delay_bounded(a: nat, b: nat)
    requires
        1 <= a <= b,
    ensures
        retry_delay_spec(a) <= retry_delay_spec(b),
        retry_delay_spec(b) <= 3000,
{
    if a < b {
        vstd::arithmetic::power2::lemma_pow2_strictly_increases((a - 1) as nat, (b - 1) as nat);
    }
}

/// The base URL for one-time-token registration: the platform API URL
/// from the environment, unless running under the hub or unset, in which
/// case the server-provided URL.
pub open spec fn registration_url_spec(hub_mode: bool, env_api: Option<Seq<char>>, server_api: Seq<char>, register_path: Seq<char>) -> Seq<char> {
    let api = if hub_mode { Seq::empty() } else {
        match env_api {
            Some(a) => a,
            None => Seq::empty(),
        }
    };
    (if api.len() == 0 { server_api } else { api }) + register_path
}

/// The one-time-token registration URL.
pub fn registration_url(hub_mode: bool, env_api: Option<String>, server_api: &str, register_path: &str) -> (r: String)
    ensures
        r@ == registration_url_spec(hub_mode, opt_view(env_api), server_api@, register_path@),
{
    let api: String = if hub_mode {
        String::new()
    } else {
        match env_api {
            Some(a) => a,
            None => String::new(),
        }
    };
    let mut v = if api.as_str().is_empty() { chars_of(server_api) } else { chars_of(api.as_str()) };
    push_str(&mut v, register_path);
    string_of(v.as_slice())
}

/// What to do with a registration reply.
#[derive(Clone, Copy, PartialEq, Eq, Structural, Debug)]
pub enum OttReply {
    /// A 2xx status: the credentials are in the body.
    Registered,
    /// A 401 saying the token is invalid or expired, which a cluster still
    /// syncing can cause: try again.
    Retry,
    /// Anything else: give up.
    Failed,
}

/// The meaning of a registration reply.
pub open spec fn ott_reply_spec(status: u16, body: Seq<char>) -> OttReply {
    if 200 <= status <= 299 {
        OttReply::Registered
    } else if status == 401 && contains_seq(body, "Invalid or expired"@) {
        OttReply::Retry
    } else {
        OttReply::Failed
    }
}

/// Classifies a registration reply by status and body.
pub fn ott_reply(status: u16, body: &str) -> (r: OttReply)
    ensures
        r == ott_reply_spec(status, body@),
{
    if 200 <= status && status <= 299 {
        OttReply::Registered
    } else if status == 401 && crate::text::contains_str(chars_of(body).as_slice(), "Invalid or expired") {
        OttReply::Retry
    } else {
        OttReply::Failed
    }
}

/// Requests a one-time-token registration makes at most.
pub const OTT_MAX_ATTEMPTS: u32 = 4;

/// What one registration request came to.
pub enum OttOutcome {
    /// The request was not answered; the HTTP client's error text.
    Unsent(String),
    /// The reply: its status, the status's standard reason phrase where it
    /// has one, and its body.
    Answered { status: u16, reason: Option<String>, body: String },
}

/// What registration does after a request.
pub enum OttNext {
    /// Registered: the credentials are in the reply.
    Registered,
    /// Wait `delay_ms`, then send the next request; `last_error` is what
    /// the final error reports if no request succeeds.
    Retry { delay_ms: u64, last_error: String },
    /// Give up with this error text.
    GiveUp(String),
}

/// The spec view of `OttNext`.
pub enum OttNextView {
    Registered,
    Retry { delay_ms: nat, last_error: Seq<char> },
    GiveUp(Seq<char>),
}

/// The view of an `OttNext`.
pub open spec fn ott_next_view(n: OttNext) -> OttNextView {
    match n {
        OttNext::Registered => OttNextView::Registered,
        OttNext::Retry { delay_ms, last_error } => OttNextView::Retry { delay_ms: delay_ms as nat, last_error: last_error@ },
        OttNext::GiveUp(e) => OttNextView::GiveUp(e@),
    }
}

/// The error text of a refused registration.
pub open spec fn ott_refusal_text(status: u16, reason: Option<Seq<char>>, url: Seq<char>, body: Seq<char>) -> Seq<char> {
    "Registration failed: "@ + nat_dec(status as nat) + " "@ + (match reason {
        Some(r) => r,
        None => "Unknown"@,
    }) + " - URL: "@ + url + " - Body: "@ + (if body.len() == 0 { "(empty response)"@ } else { body })
}

/// After request `attempt` (from 0) of a registration at `url`: done on
/// success; on a failed request or a 401 that the token is invalid or
/// expired, retry after the doubling wait while requests are left, else
/// give up with the last error; any other reply gives up at once.
pub open spec fn ott_step_spec(attempt: nat, outcome: OttOutcome, url: Seq<char>) -> OttNextView {
    let last: Option<Seq<char>> = match outcome {
        OttOutcome::Unsent(e) => Some("HTTP request failed: "@ + e@),
        OttOutcome::Answered { status, reason, body } => match ott_reply_spec(status, body@) {
            OttReply::Retry => Some(body@),
            _ => None,
        },
    };
    match last {
        Some(e) => if attempt + 1 < OTT_MAX_ATTEMPTS {
            OttNextView::Retry { delay_ms: retry_delay_spec(attempt + 1), last_error: e }
        } else {
            OttNextView::GiveUp("Registration failed after "@ + nat_dec(OTT_MAX_ATTEMPTS as nat) + " retries: "@ + e)
        },
        None => match outcome {
            OttOutcome::Answered { status, reason, body } => if ott_reply_spec(status, body@) == OttReply::Registered {
                OttNextView::Registered
            } else {
                OttNextView::GiveUp(ott_refusal_text(status, opt_view(reason), url, body@))
            },
            OttOutcome::Unsent(_) => OttNextView::Registered,
        },
    }
}

/// Decides what registration does after request `attempt` (from 0).
pub fn ott_step(attempt: u32, outcome: &OttOutcome, url: &str) -> (r: OttNext)
    requires
        attempt < OTT_MAX_ATTEMPTS,
    ensures
        ott_next_view(r) == ott_step_spec(attempt as nat, *outcome, url@),
{
    let last: Option<String> = match outcome {
        OttOutcome::Unsent(e) => {
            let mut v = chars_of("HTTP request failed: ");
            push_all(&mut v, chars_of(e.as_str()).as_slice());
            Some(string_of(v.as_slice()))
        },
        OttOutcome::Answered { status, reason: _, body } => match ott_reply(*status, body.as_str()) {
            OttReply::Retry => Some(body.clone()),
            _ => None,
        },
    };
    match last {
        Some(e) => {
            if attempt + 1 < OTT_MAX_ATTEMPTS {
                OttNext::Retry { delay_ms: ott_retry_delay_ms(attempt + 1), last_error: e }
            } else {
                let mut v = chars_of("Registration failed after ");
                push_all(&mut v, crate::num::u64_dec(OTT_MAX_ATTEMPTS as u64).as_slice());
                push_str(&mut v, " retries: ");
                push_all(&mut v, chars_of(e.as_str()).as_slice());
                OttNext::GiveUp(string_of(v.as_slice()))
            }
        },
        None => match outcome {
            OttOutcome::Answered { status, reason, body } => {
                if 200 <= *status && *status <= 299 {
                    OttNext::Registered
                } else {
                    let mut v = chars_of("Registration failed: ");
                    push_all(&mut v, crate::num::u64_dec(*status as u64).as_slice());
                    push_str(&mut v, " ");
                    match reason {
                        Some(r) => push_all(&mut v, chars_of(r.as_str()).as_slice()),
                        None => push_str(&mut v, "Unknown"),
                    }
                    push_str(&mut v, " - URL: ");
                    push_all(&mut v, chars_of(url).as_slice());
                    push_str(&mut v, " - Body: ");
                    let bc = chars_of(body.as_str());
                    if bc.len() == 0 {
                        push_str(&mut v, "(empty response)");
                    } else {
                        push_all(&mut v, bc.as_slice());
                    }
                    OttNext::GiveUp(string_of(v.as_slice()))
                }
            },
            OttOutcome::Unsent(_) => OttNext::Registered,
        },
    }
}

/// Registration sends at most `OTT_MAX_ATTEMPTS` requests: the last one
/// never asks for another.
pub proof fn lemma_ott_attempts_bounded(outcome: OttOutcome, url: Seq<char>)
    ensures
        !(ott_step_spec((OTT_MAX_ATTEMPTS - 1) as nat, outcome, url) is Retry),
{
}

/// How a message loop ended.
#[derive(Clone, Copy, PartialEq, Eq, Structural, Debug)]
pub enum LoopOutcome {
    /// The stream closed, or shutdown was requested.
    Exit,
    /// New credentials arrived: reconnect with them.
    Reconnect,
    /// The gateway rejected the credentials.
    AuthFailure,
}

/// The outcome of a registration response: `None` on success (the loop
/// goes on), an authentication failure where the error names one, else
/// the end of the loop.
pub open spec fn register_response_spec(success: bool, error: Seq<char>) -> Option<LoopOutcome> {
    if success {
        None
    } else if contains_seq(error, "auth_invalid"@) || contains_seq(error, "untrusted_issuer"@) || contains_seq(error, "jwt_invalid"@) {
        Some(LoopOutcome::AuthFailure)
    } else {
        Some(LoopOutcome::Exit)
    }
}

/// The outcome of a registration response.
pub fn register_response(success: bool, error: &str) -> (r: Option<LoopOutcome>)
    ensures
        r == register_response_spec(success, error@),
{
    if success {
        return None;
    }
    let e = chars_of(error);
    if crate::text::contains_str(e.as_slice(), "auth_invalid") || crate::text::contains_str(e.as_slice(), "untrusted_issuer")
        || crate::text::contains_str(e.as_slice(), "jwt_invalid") {
        Some(LoopOutcome::AuthFailure)
    } else {
        Some(LoopOutcome::Exit)
    }
}

/// What wakes the connector's message loop.
pub enum LoopEvent {
    /// A shutdown check (each iteration, and every 100 ms), with the flag.
    Check { shutdown: bool },
    /// The 30-second application heartbeat is due.
    HeartbeatDue,
    /// The server closed the stream.
    StreamClosed,
    /// The server answered the registration.
    RegisterResponse { success: bool, error: String },
    ExecuteRequest,
    WsOpenRequest,
    WsFrame,
    WsCloseRequest,
    /// Credentials were issued and the one-time-token registration that
    /// they start ended, registered or not.
    CredentialsRegistered { registered: bool },
    /// Any other message.
    Other,
}

/// What the message loop does on an event.
#[derive(Clone, Copy, PartialEq, Eq, Structural, Debug)]
pub enum LoopStep {
    /// Leave the loop.
    End(LoopOutcome),
    SendHeartbeat,
    /// Run the request in a task of its own.
    SpawnExecute,
    /// Open the WebSocket in a task of its own.
    SpawnWsOpen,
    ForwardFrame,
    CloseWs,
    /// Wait for the next event.
    Continue,
}

/// The message loop's decision on an event.
pub open spec fn loop_step_spec(e: LoopEvent) -> LoopStep {
    match e {
        LoopEvent::Check { shutdown } => if shutdown { LoopStep::End(LoopOutcome::Exit) } else { LoopStep::Continue },
        LoopEvent::HeartbeatDue => LoopStep::SendHeartbeat,
        LoopEvent::StreamClosed => LoopStep::End(LoopOutcome::Exit),
        LoopEvent::RegisterResponse { success, error } => match register_response_spec(success, error@) {
            Some(o) => LoopStep::End(o),
            None => LoopStep::Continue,
        },
        LoopEvent::ExecuteRequest => LoopStep::SpawnExecute,
        LoopEvent::WsOpenRequest => LoopStep::SpawnWsOpen,
        LoopEvent::WsFrame => LoopStep::ForwardFrame,
        LoopEvent::WsCloseRequest => LoopStep::CloseWs,
        LoopEvent::CredentialsRegistered { registered } => if registered {
            LoopStep::End(LoopOutcome::Reconnect)
        } else {
            LoopStep::Continue
        },
        LoopEvent::Other => LoopStep::Continue,
    }
}

/// Decides what the message loop does on an event.
pub fn loop_step(e: &LoopEvent) -> (r: LoopStep)
    ensures
        r == loop_step_spec(*e),
{
    match e {
        LoopEvent::Check { shutdown } => if *shutdown { LoopStep::End(LoopOutcome::Exit) } else { LoopStep::Continue },
        LoopEvent::HeartbeatDue => LoopStep::SendHeartbeat,
        LoopEvent::StreamClosed => LoopStep::End(LoopOutcome::Exit),
        LoopEvent::RegisterResponse { success, error } => match register_response(*success, error.as_str()) {
            Some(o) => LoopStep::End(o),
            None => LoopStep::Continue,
        },
        LoopEvent::ExecuteRequest => LoopStep::SpawnExecute,
        LoopEvent::WsOpenRequest => LoopStep::SpawnWsOpen,
        LoopEvent::WsFrame => LoopStep::ForwardFrame,
        LoopEvent::WsCloseRequest => LoopStep::CloseWs,
        LoopEvent::CredentialsRegistered { registered } => if *registered {
            LoopStep::End(LoopOutcome::Reconnect)
        } else {
            LoopStep::Continue
        },
        LoopEvent::Other => LoopStep::Continue,
    }
}

/// Consecutive rejections after which the saved credentials are dropped.
pub const MAX_AUTH_FAILURES: u32 = 3;

/// The reconnection state: consecutive rejections and whether credentials
/// are held.
#[derive(Clone, Copy, PartialEq, Eq, Structural, Debug)]
pub struct ConnState {
    pub auth_failures: u32,
    pub has_credentials: bool,
}

/// What the connection loop does next.
#[derive(Clone, Copy, PartialEq, Eq, Structural, Debug)]
pub enum ConnAction {
    /// Leave the loop.
    Stop,
    /// Wait, then connect again; first delete the saved credentials and
    /// key where asked.
    Wait { millis: u64, clear_credentials: bool },
}

/// The reconnection policy after a message loop ends.
pub open spec fn after_loop_spec(s: ConnState, outcome: LoopOutcome, shutdown: bool) -> (ConnState, ConnAction) {
    match outcome {
        LoopOutcome::Reconnect => (
            ConnState { auth_failures: 0, has_credentials: true },
            ConnAction::Wait { millis: 500, clear_credentials: false },
        ),
        LoopOutcome::AuthFailure => if s.auth_failures + 1 >= MAX_AUTH_FAILURES {
            (
                ConnState { auth_failures: 0, has_credentials: false },
                ConnAction::Wait { millis: 2000, clear_credentials: true },
            )
        } else {
            (
                ConnState { auth_failures: (s.auth_failures + 1) as u32, ..s },
                ConnAction::Wait { millis: 2000, clear_credentials: false },
            )
        },
        LoopOutcome::Exit => {
            let t = ConnState { auth_failures: 0, ..s };
            if shutdown || !s.has_credentials {
                (t, ConnAction::Stop)
            } else {
                (t, ConnAction::Wait { millis: 2000, clear_credentials: false })
            }
        },
    }
}

/// The next reconnection state and action after a message loop ends.
pub fn after_message_loop(s: ConnState, outcome: LoopOutcome, shutdown: bool) -> (r: (ConnState, ConnAction))
    requires
        s.auth_failures < MAX_AUTH_FAILURES,
    ensures
        r == after_loop_spec(s, outcome, shutdown),
{
    match outcome {
        LoopOutcome::Reconnect => (
            ConnState { auth_failures: 0, has_credentials: true },
            ConnAction::Wait { millis: 500, clear_credentials: false },
        ),
        LoopOutcome::AuthFailure => {
            let n = s.auth_failures + 1;
            if n >= MAX_AUTH_FAILURES {
                (
                    ConnState { auth_failures: 0, has_credentials: false },
                    ConnAction::Wait { millis: 2000, clear_credentials: true },
                )
            } else {
                (
                    ConnState { auth_failures: n, has_credentials: s.has_credentials },
                    ConnAction::Wait { millis: 2000, clear_credentials: false },
                )
            }
        },
        LoopOutcome::Exit => {
            let t = ConnState { auth_failures: 0, has_credentials: s.has_credentials };
            if shutdown || !s.has_credentials {
                (t, ConnAction::Stop)
            } else {
                (t, ConnAction::Wait { millis: 2000, clear_credentials: false })
            }
        },
    }
}

/// The rejection count stays below the limit, and the third rejection in
/// a row drops the credentials.
pub proof fn lemma_auth_failures_bounded(s: ConnState, outcome: LoopOutcome, shutdown: bool)
    requires
        s.auth_failures < MAX_AUTH_FAILURES,
    ensures
        after_loop_spec(s, outcome, shutdown).0.auth_failures < MAX_AUTH_FAILURES,
        s.auth_failures == 2 && outcome == LoopOutcome::AuthFailure ==> !after_loop_spec(s, outcome, shutdown).0.has_credentials
            && after_loop_spec(s, outcome, shutdown).1 == (ConnAction::Wait { millis: 2000, clear_credentials: true }),
{
}

/// Three rejections in a row, from a fresh state, drop the credentials.
pub proof fn lemma_three_rejections(s: ConnState, shutdown: bool)
    requires
        s.auth_failures == 0,
    ensures
        ({
            let a = after_loop_spec(s, LoopOutcome::AuthFailure, shutdown).0;
            let b = after_loop_spec(a, LoopOutcome::AuthFailure, shutdown).0;
            let c = after_loop_spec(b, LoopOutcome::AuthFailure, shutdown);
            &&& a.has_credentials == s.has_credentials
            &&& b.has_credentials == s.has_credentials
            &&& !c.0.has_credentials
            &&& c.1 == ConnAction::Wait { millis: 2000, clear_credentials: true }
        }),
{
}

/// The checks of an interruptible sleep: one per 100 ms, at least one.
pub fn sleep_checks(duration_ms: u128) -> (r: u128)
    ensures
        r == (if duration_ms / 100 > 1 { duration_ms / 100 } else { 1 }),
{
    let n = duration_ms / 100;
    if n > 1 { n } else { 1 }
}

/// The instance id: the cluster name is appended unless an instance id
/// was given explicitly.
pub open spec fn instance_id_spec(base: Seq<char>, explicit: bool, cluster: Option<Seq<char>>) -> Seq<char> {
    match cluster {
        Some(c) if !explicit => base + "-"@ + c,
        _ => base,
    }
}

/// The instance id of the connector.
pub fn instance_id_for(base: &str, explicit: bool, cluster: &Option<String>) -> (r: String)
    ensures
        r@ == instance_id_spec(base@, explicit, opt_view(*cluster)),
{
    match cluster {
        Some(c) => if !explicit {
            let mut v = chars_of(base);
            push_str(&mut v, "-");
            push_str(&mut v, c.as_str());
            string_of(v.as_slice())
        } else {
            String::from_str(base)
        },
        None => String::from_str(base),
    }
}

// ---------------------------------------------------------------------------
// Requests and tools
// ---------------------------------------------------------------------------

/// Where the parameters of a tool request are.
#[derive(Clone, Copy, PartialEq, Eq, Structural, Debug)]
pub enum ParamsSource {
    /// Under `parameters`.
    Parameters,
    /// Under `args` (there is no `parameters`).
    Args,
    /// Neither: an empty object.
    Empty,
}

/// How an execute request is served.
pub enum ExecuteRoute {
    /// A tool call: the tool name (empty where `tool` is not text) and
    /// where its parameters are.
    Tool(String, ParamsSource),
    /// Anything else is a page request for the liveview server.
    Page,
}

/// The route of an execute request whose payload parsed as JSON (or not).
pub open spec fn execute_route_spec(payload: Option<JsonValue>) -> Option<(Seq<char>, ParamsSource)> {
    match payload {
        Some(j) => match get_key(j, "tool"@) {
            Some(t) => Some((
                match t {
                    JsonValue::Str(x) => x@,
                    _ => Seq::empty(),
                },
                if get_key(j, "parameters"@) is Some {
                    ParamsSource::Parameters
                } else if get_key(j, "args"@) is Some {
                    ParamsSource::Args
                } else {
                    ParamsSource::Empty
                },
            )),
            None => None,
        },
        None => None,
    }
}

/// Routes an execute request by its payload.
pub fn execute_route(payload: &Option<JsonValue>) -> (r: ExecuteRoute)
    ensures
        match r {
            ExecuteRoute::Tool(name, src) => execute_route_spec(*payload) == Some((name@, src)),
            ExecuteRoute::Page => execute_route_spec(*payload) is None,
        },
{
    match payload {
        None => ExecuteRoute::Page,
        Some(j) => match get_key_exec(j, chars_of("tool").as_slice()) {
            None => ExecuteRoute::Page,
            Some(t) => {
                let name = match t {
                    JsonValue::Str(x) => x.clone(),
                    _ => String::new(),
                };
                let src = if get_key_exec(j, chars_of("parameters").as_slice()).is_some() {
                    ParamsSource::Parameters
                } else if get_key_exec(j, chars_of("args").as_slice()).is_some() {
                    ParamsSource::Args
                } else {
                    ParamsSource::Empty
                };
                ExecuteRoute::Tool(name, src)
            },
        },
    }
}

/// The text under `key`, if it is text.
pub open spec fn text_param(params: JsonValue, key: Seq<char>) -> Option<Seq<char>> {
    match get_key(params, key) {
        Some(JsonValue::Str(s)) => Some(s@),
        _ => None,
    }
}

fn text_param_exec(params: &JsonValue, key: &str) -> (r: Option<String>)
    ensures
        opt_view(r) == text_param(*params, key@),
{
    match get_key_exec(params, chars_of(key).as_slice()) {
        Some(JsonValue::Str(s)) => Some(s.clone()),
        _ => None,
    }
}

/// A tool call of the dashboard connector, with its parameters read.
pub enum ToolCall {
    ListClusters { kubeconfig_path: Option<String> },
    GetCurrentContext { kubeconfig_path: Option<String> },
    GetClusterInfo { context: String, kubeconfig_path: Option<String> },
    ToolboxStatus { context_name: Option<String> },
    ToolboxDeploy { context_name: Option<String> },
    ToolboxExec { command: String, context_name: Option<String> },
    ToolboxDelete { context_name: Option<String> },
    GetPermissions,
    /// A call that cannot run; the error to answer with.
    Invalid(String),
}

/// The names of the dashboard connector's tools, as registered.
pub open spec fn studio_tool_names() -> Seq<Seq<char>> {
    seq![
        "list_clusters"@, "get_current_context"@, "get_cluster_info"@, "toolbox_status"@,
        "toolbox_deploy"@, "toolbox_exec"@, "toolbox_delete"@, "get_permissions"@,
    ]
}

/// The error answered for a call: a missing required parameter or an
/// unknown tool; `None` where the call can run.
pub open spec fn tool_error(tool: Seq<char>, params: JsonValue) -> Option<Seq<char>> {
    if tool == "get_cluster_info"@ && text_param(params, "context_name"@) is None {
        Some("Missing required parameter: context_name"@)
    } else if tool == "toolbox_exec"@ && text_param(params, "command"@) is None {
        Some("Missing required parameter: command"@)
    } else if studio_tool_names().contains(tool) {
        None
    } else {
        Some("Unknown tool: "@ + tool)
    }
}

/// What a tool call does.
pub open spec fn tool_call_ok(c: ToolCall, tool: Seq<char>, params: JsonValue) -> bool {
    match c {
        ToolCall::Invalid(e) => tool_error(tool, params) == Some(e@),
        ToolCall::ListClusters { kubeconfig_path } => tool == "list_clusters"@
            && opt_view(kubeconfig_path) == text_param(params, "kubeconfig_path"@),
        ToolCall::GetCurrentContext { kubeconfig_path } => tool == "get_current_context"@
            && opt_view(kubeconfig_path) == text_param(params, "kubeconfig_path"@),
        ToolCall::GetClusterInfo { context, kubeconfig_path } => tool == "get_cluster_info"@
            && text_param(params, "context_name"@) == Some(context@)
            && opt_view(kubeconfig_path) == text_param(params, "kubeconfig_path"@),
        ToolCall::ToolboxStatus { context_name } => tool == "toolbox_status"@
            && opt_view(context_name) == text_param(params, "context_name"@),
        ToolCall::ToolboxDeploy { context_name } => tool == "toolbox_deploy"@
            && opt_view(context_name) == text_param(params, "context_name"@),
        ToolCall::ToolboxExec { command, context_name } => tool == "toolbox_exec"@
            && text_param(params, "command"@) == Some(command@)
            && opt_view(context_name) == text_param(params, "context_name"@),
        ToolCall::ToolboxDelete { context_name } => tool == "toolbox_delete"@
            && opt_view(context_name) == text_param(params, "context_name"@),
        ToolCall::GetPermissions => tool == "get_permissions"@,
    }
}

/// Reads a tool call of the dashboard connector from its name and
/// parameters.
pub fn parse_tool_call(tool: &str, params: &JsonValue) -> (r: ToolCall)
    ensures
        tool_call_ok(r, tool@, *params),
        (r is Invalid) == (tool_error(tool@, *params) is Some),
{
    let t = chars_of(tool);
    let ts = t.as_slice();
    proof {
        reveal_strlit("list_clusters");
        reveal_strlit("get_current_context");
        reveal_strlit("get_cluster_info");
        reveal_strlit("toolbox_status");
        reveal_strlit("toolbox_deploy");
        reveal_strlit("toolbox_exec");
        reveal_strlit("toolbox_delete");
        reveal_strlit("get_permissions");
        assert("list_clusters"@.len() == 13);
        assert("get_current_context"@.len() == 19);
        assert("get_cluster_info"@.len() == 16);
        assert("toolbox_status"@.len() == 14);
        assert("toolbox_deploy"@.len() == 14);
        assert("toolbox_exec"@.len() == 12);
        assert("toolbox_delete"@.len() == 14);
        assert("get_permissions"@.len() == 15);
        let n = studio_tool_names();
        assert(n.contains(n[0]));
        assert(n.contains(n[1]));
        assert(n.contains(n[2]));
        assert(n.contains(n[3]));
        assert(n.contains(n[4]));
        assert(n.contains(n[5]));
        assert(n.contains(n[6]));
        assert(n.contains(n[7]));
    }
    if crate::text::eq_str(ts, "list_clusters") {
        ToolCall::ListClusters { kubeconfig_path: text_param_exec(params, "kubeconfig_path") }
    } else if crate::text::eq_str(ts, "get_current_context") {
        ToolCall::GetCurrentContext { kubeconfig_path: text_param_exec(params, "kubeconfig_path") }
    } else if crate::text::eq_str(ts, "get_cluster_info") {
        match text_param_exec(params, "context_name") {
            Some(c) => ToolCall::GetClusterInfo { context: c, kubeconfig_path: text_param_exec(params, "kubeconfig_path") },
            None => ToolCall::Invalid(String::from_str("Missing required parameter: context_name")),
        }
    } else if crate::text::eq_str(ts, "toolbox_status") {
        ToolCall::ToolboxStatus { context_name: text_param_exec(params, "context_name") }
    } else if crate::text::eq_str(ts, "toolbox_deploy") {
        ToolCall::ToolboxDeploy { context_name: text_param_exec(params, "context_name") }
    } else if crate::text::eq_str(ts, "toolbox_exec") {
        match text_param_exec(params, "command") {
            Some(c) => ToolCall::ToolboxExec { command: c, context_name: text_param_exec(params, "context_name") },
            None => ToolCall::Invalid(String::from_str("Missing required parameter: command")),
        }
    } else if crate::text::eq_str(ts, "toolbox_delete") {
        ToolCall::ToolboxDelete { context_name: text_param_exec(params, "context_name") }
    } else if crate::text::eq_str(ts, "get_permissions") {
        ToolCall::GetPermissions
    } else {
        proof {
            assert(!studio_tool_names().contains(tool@)) by {
                if studio_tool_names().contains(tool@) {
                    let k = choose|k: int| 0 <= k < studio_tool_names().len() && studio_tool_names()[k] == tool@;
                    assert(0 <= k < 8);
                }
            }
        }
        let mut v = chars_of("Unknown tool: ");
        push_str(&mut v, tool);
        ToolCall::Invalid(string_of(v.as_slice()))
    }
}

/// The tool names registered with the gateway, comma-separated.
pub fn tool_names_text() -> (r: String)
    ensures
        r@ == "list_clusters,get_current_context,get_cluster_info,toolbox_status,toolbox_deploy,toolbox_exec,toolbox_delete,get_permissions"@,
{
    String::from_str("list_clusters,get_current_context,get_cluster_info,toolbox_status,toolbox_deploy,toolbox_exec,toolbox_delete,get_permissions")
}

/// Every registered tool name is served: a call with the parameters it
/// requires never gets the unknown-tool error, and the registered count
/// matches the list.
pub proof fn lemma_registered_tools_served(i: int, params: JsonValue)
    requires
        0 <= i < 8,
        text_param(params, "context_name"@) is Some,
        text_param(params, "command"@) is Some,
    ensures
        tool_error(studio_tool_names()[i], params) is None,
        studio_tool_names().len() == 8,
{
    assert(studio_tool_names().contains(studio_tool_names()[i]));
}

/// The permission mode of the connector.
#[derive(Clone, Copy, PartialEq, Eq, Structural, Debug)]
pub enum PermissionMode {
    ReadOnly,
    ReadWrite,
}

/// The answer to `get_permissions`: the mode's name, whether writes are
/// allowed, and its description.
pub fn permission_report(mode: PermissionMode) -> (r: (&'static str, bool, &'static str))
    ensures
        r.0@ == (if mode == PermissionMode::ReadOnly { "read"@ } else { "write"@ }),
        r.1 == (mode == PermissionMode::ReadWrite),
        r.2@ == (if mode == PermissionMode::ReadOnly {
            "Read-only mode: Only read operations allowed (get, list, describe, logs). Write operations (apply, create, delete, etc.) are blocked."@
        } else {
            "Read-write mode: Full access to all operations including create, apply, delete, scale, etc."@
        }),
{
    match mode {
        PermissionMode::ReadOnly => (
            "read",
            false,
            "Read-only mode: Only read operations allowed (get, list, describe, logs). Write operations (apply, create, delete, etc.) are blocked.",
        ),
        PermissionMode::ReadWrite => (
            "write",
            true,
            "Read-write mode: Full access to all operations including create, apply, delete, scale, etc.",
        ),
    }
}

/// A context of a kubeconfig.
pub struct KubeContext {
    pub name: String,
    /// The context's cluster, user and namespace, where it has a body.
    pub cluster: Option<String>,
    pub user: Option<String>,
    pub namespace: Option<String>,
    pub has_body: bool,
}

/// A cluster of a kubeconfig.
pub struct KubeCluster {
    pub name: String,
    /// Where the entry has a cluster body: its server, TLS server name and
    /// whether TLS verification is skipped.
    pub body: Option<ClusterBody>,
}

/// The body of a kubeconfig cluster entry.
pub struct ClusterBody {
    pub server: Option<String>,
    pub tls_server_name: Option<String>,
    pub insecure_skip_tls_verify: Option<bool>,
}

/// What the tools read of a kubeconfig.
pub struct Kubeconfig {
    pub contexts: Vec<KubeContext>,
    pub clusters: Vec<KubeCluster>,
}

/// One context as `list_clusters` reports it.
pub struct ContextSummary {
    pub name: String,
    pub cluster: String,
    pub namespace: Option<String>,
    pub user: String,
    pub server: Option<String>,
    pub is_current: bool,
}

/// The first cluster entry with this name.
pub open spec fn cluster_named(cs: Seq<KubeCluster>, name: Seq<char>) -> Option<KubeCluster>
    decreases cs.len(),
{
    if cs.len() == 0 {
        None
    } else if cs[0].name@ == name {
        Some(cs[0])
    } else {
        cluster_named(cs.drop_first(), name)
    }
}

/// The cluster name of a context (empty without a body).
pub open spec fn context_cluster(c: KubeContext) -> Seq<char> {
    if c.has_body { crate::resources::or_text(c.cluster, Seq::empty()) } else { Seq::empty() }
}

/// The summary of a context.
pub open spec fn context_summary_ok(s: ContextSummary, c: KubeContext, clusters: Seq<KubeCluster>, current: Option<Seq<char>>) -> bool {
    &&& s.name@ == c.name@
    &&& s.cluster@ == context_cluster(c)
    &&& opt_view(s.namespace) == (if c.has_body { opt_view(c.namespace) } else { None })
    &&& s.user@ == (if c.has_body { crate::resources::or_text(c.user, Seq::empty()) } else { Seq::empty() })
    &&& opt_view(s.server) == match cluster_named(clusters, context_cluster(c)) {
        Some(k) => match k.body {
            Some(b) => opt_view(b.server),
            None => None,
        },
        None => None,
    }
    &&& s.is_current == (current == Some(c.name@))
}

fn cluster_named_exec<'a>(cs: &'a Vec<KubeCluster>, name: &String) -> (r: Option<&'a KubeCluster>)
    ensures
        match r {
            Some(k) => cluster_named(cs@, name@) == Some(*k),
            None => cluster_named(cs@, name@) is None,
        },
{
    let mut i: usize = 0;
    assert(cs@.skip(0) =~= cs@);
    while i < cs.len()
        invariant
            i <= cs@.len(),
            cluster_named(cs@, name@) == cluster_named(cs@.skip(i as int), name@),
        decreases cs@.len() - i,
    {
        assert(cs@.skip(i as int).drop_first() =~= cs@.skip(i + 1));
        assert(cs@.skip(i as int)[0] == cs@[i as int]);
        if cs[i].name == *name {
            return Some(&cs[i]);
        }
        i += 1;
    }
    None
}

/// The summaries of all contexts of a kubeconfig, for `list_clusters`.
pub fn list_clusters(config: &Kubeconfig, current: &Option<String>) -> (r: Vec<ContextSummary>)
    ensures
        r@.len() == config.contexts@.len(),
        forall|i: int| 0 <= i < r@.len() ==> context_summary_ok(#[trigger] r@[i], config.contexts@[i], config.clusters@, opt_view(*current)),
{
    let mut out: Vec<ContextSummary> = Vec::new();
    let mut i: usize = 0;
    while i < config.contexts.len()
        invariant
            i <= config.contexts@.len(),
            out@.len() == i,
            forall|j: int| 0 <= j < i ==> context_summary_ok(#[trigger] out@[j], config.contexts@[j], config.clusters@, opt_view(*current)),
        decreases config.contexts@.len() - i,
    {
        let c = &config.contexts[i];
        let cluster: String = if c.has_body { match &c.cluster { Some(x) => x.clone(), None => String::new() } } else { String::new() };
        let user: String = if c.has_body { match &c.user { Some(x) => x.clone(), None => String::new() } } else { String::new() };
        let namespace = if c.has_body { crate::resources::opt_clone(&c.namespace) } else { None };
        let server = match cluster_named_exec(&config.clusters, &cluster) {
            Some(k) => match &k.body {
                Some(b) => crate::resources::opt_clone(&b.server),
                None => None,
            },
            None => None,
        };
        let is_current = match current {
            Some(n) => *n == c.name,
            None => false,
        };
        out.push(ContextSummary { name: c.name.clone(), cluster, namespace, user, server, is_current });
        i += 1;
    }
    out
}

/// What `get_cluster_info` reports of a context and its cluster.
pub struct ClusterInfo {
    pub context: ContextSummary,
    pub tls_server_name: Option<String>,
    pub insecure_skip_tls_verify: Option<bool>,
}

/// The first context with this name.
pub open spec fn context_named(cs: Seq<KubeContext>, name: Seq<char>) -> Option<KubeContext>
    decreases cs.len(),
{
    if cs.len() == 0 {
        None
    } else if cs[0].name@ == name {
        Some(cs[0])
    } else {
        context_named(cs.drop_first(), name)
    }
}

/// Details of a named context, or the error `Context '…' not found`.
pub fn get_cluster_info(config: &Kubeconfig, current: &Option<String>, context_name: &str) -> (r: Result<ClusterInfo, String>)
    ensures
        match r {
            Ok(info) => context_named(config.contexts@, context_name@) matches Some(c)
                && context_summary_ok(info.context, c, config.clusters@, opt_view(*current))
                && match cluster_named(config.clusters@, context_cluster(c)) {
                    Some(k) => match k.body {
                        Some(b) => opt_view(info.tls_server_name) == opt_view(b.tls_server_name)
                            && info.insecure_skip_tls_verify == b.insecure_skip_tls_verify,
                        None => info.tls_server_name is None && info.insecure_skip_tls_verify is None,
                    },
                    None => info.tls_server_name is None && info.insecure_skip_tls_verify is None,
                },
            Err(e) => context_named(config.contexts@, context_name@) is None
                && e@ == "Context '"@ + context_name@ + "' not found"@,
        },
{
    let want = chars_of(context_name);
    let mut i: usize = 0;
    assert(config.contexts@.skip(0) =~= config.contexts@);
    while i < config.contexts.len()
        invariant
            i <= config.contexts@.len(),
            want@ == context_name@,
            context_named(config.contexts@, context_name@) == context_named(config.contexts@.skip(i as int), context_name@),
        decreases config.contexts@.len() - i,
    {
        assert(config.contexts@.skip(i as int).drop_first() =~= config.contexts@.skip(i + 1));
        assert(config.contexts@.skip(i as int)[0] == config.contexts@[i as int]);
        let c = &config.contexts[i];
        if crate::text::chars_eq(chars_of(c.name.as_str()).as_slice(), want.as_slice()) {
            let cluster: String = if c.has_body { match &c.cluster { Some(x) => x.clone(), None => String::new() } } else { String::new() };
            let user: String = if c.has_body { match &c.user { Some(x) => x.clone(), None => String::new() } } else { String::new() };
            let namespace = if c.has_body { crate::resources::opt_clone(&c.namespace) } else { None };
            let (server, tls, insecure) = match cluster_named_exec(&config.clusters, &cluster) {
                Some(k) => match &k.body {
                    Some(b) => (crate::resources::opt_clone(&b.server), crate::resources::opt_clone(&b.tls_server_name), b.insecure_skip_tls_verify),
                    None => (None, None, None),
                },
                None => (None, None, None),
            };
            let is_current = match current {
                Some(n) => *n == c.name,
                None => false,
            };
            return Ok(ClusterInfo {
                context: ContextSummary { name: c.name.clone(), cluster, namespace, user, server, is_current },
                tls_server_name: tls,
                insecure_skip_tls_verify: insecure,
            });
        }
        i += 1;
    }
    let mut v = chars_of("Context '");
    push_str(&mut v, context_name);
    push_str(&mut v, "' not found");
    Err(string_of(v.as_slice()))
}

/// How the tool-only connector routes a request.
#[derive(Clone, Copy, PartialEq, Eq, Structural, Debug)]
pub enum ToolRoute {
    ListClusters,
    GetCurrentContext,
    GetClusterInfo,
    /// No `tool` field (or not text).
    MissingTool,
    Unknown,
}

/// Routes a request of the tool-only connector by its tool name.
pub fn tool_route(tool: &str) -> (r: ToolRoute)
    ensures
        r == (if tool@ == "list_clusters"@ {
            ToolRoute::ListClusters
        } else if tool@ == "get_current_context"@ {
            ToolRoute::GetCurrentContext
        } else if tool@ == "get_cluster_info"@ {
            ToolRoute::GetClusterInfo
        } else if tool@.len() == 0 {
            ToolRoute::MissingTool
        } else {
            ToolRoute::Unknown
        }),
{
    let t = chars_of(tool);
    if crate::text::eq_str(t.as_slice(), "list_clusters") {
        ToolRoute::ListClusters
    } else if crate::text::eq_str(t.as_slice(), "get_current_context") {
        ToolRoute::GetCurrentContext
    } else if crate::text::eq_str(t.as_slice(), "get_cluster_info") {
        ToolRoute::GetClusterInfo
    } else if t.len() == 0 {
        ToolRoute::MissingTool
    } else {
        ToolRoute::Unknown
    }
}

/// The tool name of a tool-only connector request: its `tool` field where
/// that is text, else empty.
pub open spec fn request_tool(request: JsonValue) -> Seq<char> {
    match get_key(request, "tool"@) {
        Some(JsonValue::Str(t)) => t@,
        _ => Seq::empty(),
    }
}

/// What the tool-only connector does with a request: the route of its
/// tool, or the configuration error it answers with.
pub open spec fn tool_request_spec(request: JsonValue) -> Result<ToolRoute, Seq<char>> {
    let t = request_tool(request);
    if t == "list_clusters"@ {
        Ok(ToolRoute::ListClusters)
    } else if t == "get_current_context"@ {
        Ok(ToolRoute::GetCurrentContext)
    } else if t == "get_cluster_info"@ {
        Ok(ToolRoute::GetClusterInfo)
    } else if t.len() == 0 {
        Err("Missing 'tool' field in request"@)
    } else {
        Err("Unknown tool: "@ + t)
    }
}

/// Routes a request of the tool-only connector, or gives the text of the
/// `InvalidConfig` error it is refused with.
pub fn tool_request_route(request: &JsonValue) -> (r: Result<ToolRoute, String>)
    ensures
        match (r, tool_request_spec(*request)) {
            (Ok(a), Ok(b)) => a == b,
            (Err(e), Err(t)) => e@ == t,
            _ => false,
        },
{
    let k = chars_of("tool");
    let tool: String = match get_key_exec(request, k.as_slice()) {
        Some(JsonValue::Str(t)) => t.clone(),
        _ => String::new(),
    };
    assert(tool@ == request_tool(*request));
    match tool_route(tool.as_str()) {
        ToolRoute::MissingTool => Err(String::from_str("Missing 'tool' field in request")),
        ToolRoute::Unknown => {
            let mut v = chars_of("Unknown tool: ");
            push_all(&mut v, chars_of(tool.as_str()).as_slice());
            Err(string_of(v.as_slice()))
        },
        route => Ok(route),
    }
}

// ---------------------------------------------------------------------------
// Endpoints and identity
// ---------------------------------------------------------------------------

/// `base` without trailing `/`, then `path`.
pub open spec fn endpoint_spec(base: Seq<char>, path: Seq<char>) -> Seq<char> {
    crate::nodes::strip_end(base, "/"@) + path
}

fn endpoint(base: &str, path: &str) -> (r: String)
    ensures
        r@ == endpoint_spec(base@, path@),
{
    let mut v = crate::nodes::strip_end_exec(chars_of(base).as_slice(), "/");
    push_str(&mut v, path);
    string_of(v.as_slice())
}

/// The token refresh endpoint of the platform API.
pub fn token_refresh_url(api_base: &str) -> (r: String)
    ensures
        r@ == endpoint_spec(api_base@, "/api/app/token/refresh"@),
{
    endpoint(api_base, "/api/app/token/refresh")
}

/// The token endpoint of the identity provider.
pub fn token_url(keycloak_url: &str) -> (r: String)
    ensures
        r@ == endpoint_spec(keycloak_url@, "/protocol/openid-connect/token"@),
{
    endpoint(keycloak_url, "/protocol/openid-connect/token")
}

/// The claims of the connector's client assertion.
pub struct AssertionClaims {
    pub iss: String,
    pub sub: String,
    pub aud: String,
    pub exp: u64,
    pub iat: u64,
}

/// The claims of a client assertion made at `now` (Unix seconds): issued
/// by and about the client, for the identity provider, valid for a
/// minute. The token id is added where the assertion is signed.
pub fn assertion_claims(client_id: &str, keycloak_url: &str, now: u64) -> (r: AssertionClaims)
    requires
        now + 60 <= u64::MAX,
    ensures
        r.iss@ == client_id@,
        r.sub@ == client_id@,
        r.aud@ == keycloak_url@,
        r.exp == now + 60,
        r.iat == now,
{
    AssertionClaims {
        iss: String::from_str(client_id),
        sub: String::from_str(client_id),
        aud: String::from_str(keycloak_url),
        exp: now + 60,
        iat: now,
    }
}

/// The form of the client-credentials token request.
pub fn token_request_form(client_id: &str, assertion: &str) -> (r: Vec<(String, String)>)
    ensures
        r@.len() == 4,
        r@[0].0@ == "grant_type"@ && r@[0].1@ == "client_credentials"@,
        r@[1].0@ == "client_id"@ && r@[1].1@ == client_id@,
        r@[2].0@ == "client_assertion_type"@ && r@[2].1@ == "urn:ietf:params:oauth:client-assertion-type:jwt-bearer"@,
        r@[3].0@ == "client_assertion"@ && r@[3].1@ == assertion@,
{
    let mut v: Vec<(String, String)> = Vec::new();
    v.push((String::from_str("grant_type"), String::from_str("client_credentials")));
    v.push((String::from_str("client_id"), String::from_str(client_id)));
    v.push((
        String::from_str("client_assertion_type"),
        String::from_str("urn:ietf:params:oauth:client-assertion-type:jwt-bearer"),
    ));
    v.push((String::from_str("client_assertion"), String::from_str(assertion)));
    v
}

/// The connector address pattern of a tenant's dashboard connectors.
pub fn agent_connector_key(tenant_id: &str) -> (r: String)
    ensures
        r@ == tenant_id@ + ".app-kube-studio.*"@,
{
    let mut v = chars_of(tenant_id);
    push_str(&mut v, ".app-kube-studio.*");
    string_of(v.as_slice())
}

/// How the app appears in the platform's navigation: under the cluster's
/// name nested in `KubeStudio`, or as `KubeStudio` at the top level.
pub fn manifest_title(cluster_name: &Option<String>) -> (r: (String, bool))
    ensures
        match *cluster_name {
            Some(n) => r.0@ == n@ && r.1,
            None => r.0@ == "KubeStudio"@ && !r.1,
        },
{
    match cluster_name {
        Some(n) => (n.clone(), true),
        None => (String::from_str("KubeStudio"), false),
    }
}

/// The label of a permission mode in the startup report.
pub fn permission_mode_label(mode: PermissionMode) -> (r: &'static str)
    ensures
        r@ == (if mode == PermissionMode::ReadOnly { "READ-ONLY (view)"@ } else { "READ-WRITE (cluster-admin)"@ }),
{
    match mode {
        PermissionMode::ReadOnly => "READ-ONLY (view)",
        PermissionMode::ReadWrite => "READ-WRITE (cluster-admin)",
    }
}

} // verus!
