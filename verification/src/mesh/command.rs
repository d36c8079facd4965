//! The node's terminal commands: `/encrypt <text>`, `/request-decrypt <id>`,
//! `/shares`, and plain text, optionally prefixed by `<ttl>:`.

use vstd::prelude::*;
use vstd::string::StrSliceExecFns;

verus! {

/// What a line typed at the node asks for.
pub enum Command {
    /// Nothing to do (an empty line, or a share request without an id).
    Nothing,
    /// Send `text` threshold-encrypted.
    Encrypt(String),
    /// Send `text` threshold-encrypted as an emergency broadcast, and keep it
    /// in the emergency cache.
    Emergency(String),
    /// Store `text` threshold-encrypted with the storage service.
    Store(String),
    /// Ask the other nodes for their shares of the message with this id.
    RequestDecrypt(String),
    /// Show the share counts of pending messages.
    ShowShares,
    /// Show the node's status.
    Status,
    /// Show the connected peers.
    Peers,
    /// Show the messages received so far.
    History,
    /// Show the storage service's status.
    Filecoin,
    /// Show the routing mode the storage service's status calls for.
    RoutingCheck,
    /// Switch emergency mode on.
    EmergencyMode,
    /// Send `content` as plain text with this many hops.
    Send { ttl: u32, content: String },
}

/// A [`Command`] as plain values.
pub enum CommandView {
    Nothing,
    Encrypt(Seq<char>),
    Emergency(Seq<char>),
    Store(Seq<char>),
    RequestDecrypt(Seq<char>),
    ShowShares,
    Status,
    Peers,
    History,
    Filecoin,
    RoutingCheck,
    EmergencyMode,
    Send { ttl: u32, content: Seq<char> },
}

impl View for Command {
    type V = CommandView;

    open spec fn view(&self) -> CommandView {
        match self {
            Command::Nothing => CommandView::Nothing,
            Command::Encrypt(t) => CommandView::Encrypt(t@),
            Command::Emergency(t) => CommandView::Emergency(t@),
            Command::Store(t) => CommandView::Store(t@),
            Command::RequestDecrypt(t) => CommandView::RequestDecrypt(t@),
            Command::ShowShares => CommandView::ShowShares,
            Command::Status => CommandView::Status,
            Command::Peers => CommandView::Peers,
            Command::History => CommandView::History,
            Command::Filecoin => CommandView::Filecoin,
            Command::RoutingCheck => CommandView::RoutingCheck,
            Command::EmergencyMode => CommandView::EmergencyMode,
            Command::Send { ttl, content } => CommandView::Send { ttl: *ttl, content: content@ },
        }
    }
}

/// `s` begins with `p`.
pub open spec fn starts_with(s: Seq<char>, p: Seq<char>) -> bool {
    p.len() <= s.len() && s.subrange(0, p.len() as int) == p
}

/// The ASCII digit `c`'s value, if it is one.
pub open spec fn digit_value(c: char) -> int {
    (c as int) - ('0' as int)
}

/// All characters are ASCII digits.
pub open spec fn all_digits(t: Seq<char>) -> bool {
    forall|i: int| 0 <= i < t.len() ==> '0' <= #[trigger] t[i] <= '9'
}

/// The number that a string of decimal digits spells.
pub open spec fn digits_value(t: Seq<char>) -> int
    decreases t.len(),
{
    if t.len() == 0 { 0 } else { digits_value(t.drop_last()) * 10 + digit_value(t.last()) }
}

/// The `u32` that `t` spells as `str::parse::<u32>` reads it: an optional
/// `+`, then at least one ASCII digit and nothing else, with a value that
/// fits.
pub open spec fn u32_of_text(t: Seq<char>) -> Option<u32> {
    let d = if t.len() > 0 && t[0] == '+' { t.drop_first() } else { t };
    if d.len() > 0 && all_digits(d) && digits_value(d) <= u32::MAX {
        Some(digits_value(d) as u32)
    } else {
        None
    }
}

/// The position of the first `:` in `s`, if any.
pub open spec fn first_colon(s: Seq<char>) -> Option<int> {
    if exists|i: int| 0 <= i < s.len() && s[i] == ':' {
        Some(choose|i: int| 0 <= i < s.len() && s[i] == ':' && forall|j: int| 0 <= j < i ==> s[j] != ':')
    } else {
        None
    }
}

/// Whether `s` begins with `p`.
fn has_prefix(s: &str, p: &str) -> (res: bool)
    ensures
        res == starts_with(s@, p@),
{
    let n: usize = s.unicode_len();
    let m: usize = p.unicode_len();
    if m > n {
        return false;
    }
    let mut i: usize = 0;
    while i < m
        invariant
            m == p@.len(),
            n == s@.len(),
            m <= n,
            i <= m,
            forall|j: int| 0 <= j < i ==> s@[j] == p@[j],
        decreases m - i,
    {
        if s.get_char(i) != p.get_char(i) {
            assert(s@.subrange(0, m as int)[i as int] != p@[i as int]);
            return false;
        }
        i = i + 1;
    }
    assert(s@.subrange(0, m as int) =~= p@);
    true
}

/// The text after the first `count` characters of `s`.
fn rest_after(s: &str, count: usize) -> (res: String)
    requires
        count <= s@.len(),
    ensures
        res@ == s@.skip(count as int),
{
    let n: usize = s.unicode_len();
    let rest = s.substring_char(count, n);
    assert(s@.subrange(count as int, n as int) =~= s@.skip(count as int));
    rest.to_owned()
}

/// Whether `c` has the Unicode `White_Space` property, as
/// `char::is_whitespace` tests it.
pub open spec fn is_white_space(c: char) -> bool {
    let n = c as u32;
    ||| 9 <= n <= 13
    ||| n == 32
    ||| n == 0x85
    ||| n == 0xA0
    ||| n == 0x1680
    ||| 0x2000 <= n <= 0x200A
    ||| n == 0x2028
    ||| n == 0x2029
    ||| n == 0x202F
    ||| n == 0x205F
    ||| n == 0x3000
}

/// `s` without its leading white space.
pub open spec fn trim_start_spec(s: Seq<char>) -> Seq<char>
    decreases s.len(),
{
    if s.len() > 0 && is_white_space(s[0]) { trim_start_spec(s.drop_first()) } else { s }
}

/// `s` without its trailing white space.
pub open spec fn trim_end_spec(s: Seq<char>) -> Seq<char>
    decreases s.len(),
{
    if s.len() > 0 && is_white_space(s.last()) { trim_end_spec(s.drop_last()) } else { s }
}

/// `s` without leading and trailing white space, as `str::trim` gives it.
pub open spec fn trim_spec(s: Seq<char>) -> Seq<char> {
    trim_end_spec(trim_start_spec(s))
}

fn white_space(c: char) -> (res: bool)
    ensures
        res == is_white_space(c),
{
    let n: u32 = c as u32;
    (9 <= n && n <= 13) || n == 32 || n == 0x85 || n == 0xA0 || n == 0x1680 || (0x2000 <= n && n <= 0x200A)
        || n == 0x2028 || n == 0x2029 || n == 0x202F || n == 0x205F || n == 0x3000
}

proof fn lemma_trim_start(s: Seq<char>, i: int)
    requires
        0 <= i <= s.len(),
        forall|k: int| 0 <= k < i ==> is_white_space(#[trigger] s[k]),
        i == s.len() || !is_white_space(s[i]),
    ensures
        trim_start_spec(s) == s.skip(i),
    decreases i,
{
    if i == 0 {
        assert(s.skip(0) =~= s);
    } else {
        assert(is_white_space(s[0]));
        let t = s.drop_first();
        assert forall|k: int| 0 <= k < i - 1 implies is_white_space(#[trigger] t[k]) by {
            assert(t[k] == s[k + 1]);
        }
        if i < s.len() {
            assert(t[i - 1] == s[i]);
        }
        lemma_trim_start(t, i - 1);
        assert(t.skip(i - 1) =~= s.skip(i));
    }
}

proof fn lemma_trim_end(s: Seq<char>, j: int)
    requires
        0 <= j <= s.len(),
        forall|k: int| j <= k < s.len() ==> is_white_space(#[trigger] s[k]),
        j == 0 || !is_white_space(s[j - 1]),
    ensures
        trim_end_spec(s) == s.take(j),
    decreases s.len() - j,
{
    if j == s.len() {
        assert(s.take(j) =~= s);
    } else {
        assert(is_white_space(s.last()));
        let t = s.drop_last();
        assert forall|k: int| j <= k < t.len() implies is_white_space(#[trigger] t[k]) by {
            assert(t[k] == s[k]);
        }
        if j > 0 {
            assert(t[j - 1] == s[j - 1]);
        }
        lemma_trim_end(t, j);
        assert(t.take(j) =~= s.take(j));
    }
}

/// The text without leading and trailing white space (`str::trim`).
pub fn trim_text(s: &str) -> (res: String)
    ensures
        res@ == trim_spec(s@),
{
    let n: usize = s.unicode_len();
    let mut i: usize = 0;
    while i < n
        invariant
            n == s@.len(),
            i <= n,
            forall|k: int| 0 <= k < i ==> is_white_space(#[trigger] s@[k]),
        ensures
            i <= n,
            forall|k: int| 0 <= k < i ==> is_white_space(#[trigger] s@[k]),
            i == n || !is_white_space(s@[i as int]),
        decreases n - i,
    {
        if !white_space(s.get_char(i)) {
            break;
        }
        i = i + 1;
    }
    proof {
        lemma_trim_start(s@, i as int);
    }
    let ghost t = s@.skip(i as int);
    let mut j: usize = n;
    while j > i
        invariant
            n == s@.len(),
            i <= j <= n,
            t == s@.skip(i as int),
            forall|k: int| j <= k < n ==> is_white_space(#[trigger] s@[k]),
        ensures
            i <= j <= n,
            forall|k: int| j <= k < n ==> is_white_space(#[trigger] s@[k]),
            j == i || !is_white_space(s@[j - 1]),
        decreases j - i,
    {
        if !white_space(s.get_char(j - 1)) {
            break;
        }
        j = j - 1;
    }
    proof {
        assert forall|k: int| (j - i) <= k < t.len() implies is_white_space(#[trigger] t[k]) by {
            assert(t[k] == s@[k + i]);
        }
        if j > i {
            assert(t[j - i - 1] == s@[j - 1]);
        }
        lemma_trim_end(t, (j - i) as int);
        assert(t.take((j - i) as int) =~= s@.subrange(i as int, j as int));
    }
    s.substring_char(i, j).to_owned()
}

/// Reads `t` as `str::parse::<u32>` does.
pub fn parse_u32(t: &str) -> (res: Option<u32>)
    ensures
        res == u32_of_text(t@),
{
    let n: usize = t.unicode_len();
    let mut start: usize = 0;
    if n > 0 && t.get_char(0) == '+' {
        start = 1;
    }
    let ghost d = if t@.len() > 0 && t@[0] == '+' { t@.drop_first() } else { t@ };
    assert(d =~= t@.skip(start as int));
    if start >= n {
        return None;
    }
    let mut value: u64 = 0;
    let mut i: usize = start;
    while i < n
        invariant
            n == t@.len(),
            start <= i <= n,
            start < n,
            d == t@.skip(start as int),
            d == (if t@.len() > 0 && t@[0] == '+' { t@.drop_first() } else { t@ }),
            all_digits(t@.subrange(start as int, i as int)),
            value == digits_value(t@.subrange(start as int, i as int)),
            value <= u32::MAX,
        decreases n - i,
    {
        let c = t.get_char(i);
        if c < '0' || c > '9' {
            assert(d[i - start] == c);
            return None;
        }
        let digit: u64 = (c as u64) - ('0' as u64);
        let next: u64 = value * 10 + digit;
        assert(t@.subrange(start as int, i + 1).drop_last() =~= t@.subrange(start as int, i as int));
        assert(t@.subrange(start as int, i + 1).last() == c);
        if next > 4294967295u64 {
            proof {
                assert(t@.subrange(start as int, i + 1) =~= d.subrange(0, i - start + 1));
                if all_digits(d) {
                    lemma_digits_value_grows(d, (i - start + 1) as int);
                }
            }
            return None;
        }
        value = next;
        i = i + 1;
    }
    assert(t@.subrange(start as int, n as int) =~= d);
    Some(value as u32)
}

/// A prefix of a digit string spells at most what the whole string spells.
proof fn lemma_digits_value_grows(d: Seq<char>, k: int)
    requires
        0 <= k <= d.len(),
        all_digits(d),
    ensures
        digits_value(d.subrange(0, k)) <= digits_value(d),
    decreases d.len() - k,
{
    if k < d.len() {
        lemma_digits_value_grows(d, k + 1);
        assert(d.subrange(0, k + 1).drop_last() =~= d.subrange(0, k));
        assert(d.subrange(0, k + 1).last() == d[k]);
        lemma_digits_value_nonneg(d.subrange(0, k));
    } else {
        assert(d.subrange(0, k) =~= d);
    }
}

/// Digit strings spell non-negative numbers.
proof fn lemma_digits_value_nonneg(d: Seq<char>)
    requires
        all_digits(d),
    ensures
        digits_value(d) >= 0,
    decreases d.len(),
{
    if d.len() > 0 {
        assert(all_digits(d.drop_last()));
        lemma_digits_value_nonneg(d.drop_last());
    }
}

/// What a line typed at the node asks for. An empty line asks for nothing.
/// `/encrypt <text>`, `/emergency <text>` and `/store <text>` carry the text
/// after the command; `/request-decrypt <id>` carries the id without
/// surrounding white space, and asks for nothing when that is empty.
/// `/shares`, `/status`, `/peers`, `/history`, `/filecoin`, `/routing-check`
/// and `/emergency-mode` stand alone. Any other line is plain text: when its
/// text before the first `:` reads as a `u32`, that is the ttl and the text
/// after the `:` the content; otherwise the whole line is sent with a ttl of
/// 5.
pub open spec fn spec_command(line: Seq<char>) -> CommandView {
    if line.len() == 0 {
        CommandView::Nothing
    } else if starts_with(line, "/encrypt "@) {
        CommandView::Encrypt(line.skip("/encrypt "@.len() as int))
    } else if starts_with(line, "/emergency "@) {
        CommandView::Emergency(line.skip("/emergency "@.len() as int))
    } else if starts_with(line, "/store "@) {
        CommandView::Store(line.skip("/store "@.len() as int))
    } else if starts_with(line, "/request-decrypt "@) {
        let id = trim_spec(line.skip("/request-decrypt "@.len() as int));
        if id.len() == 0 { CommandView::Nothing } else { CommandView::RequestDecrypt(id) }
    } else if line == "/shares"@ {
        CommandView::ShowShares
    } else if line == "/status"@ {
        CommandView::Status
    } else if line == "/peers"@ {
        CommandView::Peers
    } else if line == "/history"@ {
        CommandView::History
    } else if line == "/filecoin"@ {
        CommandView::Filecoin
    } else if line == "/routing-check"@ {
        CommandView::RoutingCheck
    } else if line == "/emergency-mode"@ {
        CommandView::EmergencyMode
    } else {
        match first_colon(line) {
            Some(k) => match u32_of_text(line.take(k)) {
                Some(v) => CommandView::Send { ttl: v, content: line.skip(k + 1) },
                None => CommandView::Send { ttl: 5, content: line },
            },
            None => CommandView::Send { ttl: 5, content: line },
        }
    }
}

/// Whether `s` is exactly `p`.
fn is_exactly(s: &str, p: &str) -> (res: bool)
    ensures
        res == (s@ == p@),
{
    if s.unicode_len() != p.unicode_len() {
        return false;
    }
    let r = has_prefix(s, p);
    proof {
        assert(s@.subrange(0, p@.len() as int) =~= s@);
    }
    r
}

/// Plain text with an optional `<ttl>:` in front.
fn plain_text(line: &str) -> (res: Command)
    ensures
        res@ == (match first_colon(line@) {
            Some(k) => match u32_of_text(line@.take(k)) {
                Some(v) => CommandView::Send { ttl: v, content: line@.skip(k + 1) },
                None => CommandView::Send { ttl: 5, content: line@ },
            },
            None => CommandView::Send { ttl: 5, content: line@ },
        }),
{
    let n: usize = line.unicode_len();
    let mut i: usize = 0;
    while i < n
        invariant
            n == line@.len(),
            i <= n,
            forall|j: int| 0 <= j < i ==> line@[j] != ':',
        ensures
            i <= n,
            forall|j: int| 0 <= j < i ==> line@[j] != ':',
            i < n ==> line@[i as int] == ':',
        decreases n - i,
    {
        if line.get_char(i) == ':' {
            break;
        }
        i = i + 1;
    }
    if i < n {
        let ghost k = i as int;
        proof {
            assert(line@[k] == ':');
            let c = choose|c: int| 0 <= c < line@.len() && line@[c] == ':' && forall|j: int| 0 <= j < c ==> line@[j] != ':';
            if c < k {
                assert(line@[c] != ':');
            }
            if k < c {
                assert(line@[k] != ':');
            }
            assert(first_colon(line@) == Some(k));
        }
        let head = line.substring_char(0, i);
        assert(head@ =~= line@.take(k));
        match parse_u32(head) {
            Some(ttl) => {
                return Command::Send { ttl, content: rest_after(line, i + 1) };
            },
            None => {
                return Command::Send { ttl: 5, content: line.to_owned() };
            },
        }
    }
    assert(first_colon(line@) is None);
    Command::Send { ttl: 5, content: line.to_owned() }
}

/// Reads a line typed at the node, as [`spec_command`] describes.
pub fn parse_command(line: &str) -> (res: Command)
    ensures
        res@ == spec_command(line@),
{
    if line.unicode_len() == 0 {
        return Command::Nothing;
    }
    let encrypt_prefix = "/encrypt ";
    if has_prefix(line, encrypt_prefix) {
        return Command::Encrypt(rest_after(line, encrypt_prefix.unicode_len()));
    }
    let emergency_prefix = "/emergency ";
    if has_prefix(line, emergency_prefix) {
        return Command::Emergency(rest_after(line, emergency_prefix.unicode_len()));
    }
    let store_prefix = "/store ";
    if has_prefix(line, store_prefix) {
        return Command::Store(rest_after(line, store_prefix.unicode_len()));
    }
    let request_prefix = "/request-decrypt ";
    if has_prefix(line, request_prefix) {
        let rest = rest_after(line, request_prefix.unicode_len());
        let id = trim_text(rest.as_str());
        if id.as_str().unicode_len() == 0 {
            return Command::Nothing;
        }
        return Command::RequestDecrypt(id);
    }
    if is_exactly(line, "/shares") {
        return Command::ShowShares;
    }
    if is_exactly(line, "/status") {
        return Command::Status;
    }
    if is_exactly(line, "/peers") {
        return Command::Peers;
    }
    if is_exactly(line, "/history") {
        return Command::History;
    }
    if is_exactly(line, "/filecoin") {
        return Command::Filecoin;
    }
    if is_exactly(line, "/routing-check") {
        return Command::RoutingCheck;
    }
    if is_exactly(line, "/emergency-mode") {
        return Command::EmergencyMode;
    }
    plain_text(line)
}

/// The hop budget of an encrypted or emergency message typed at the prompt.
pub const ENCRYPTED_TTL: u32 = 5;

/// The hops a command's message gets on the mesh, or `None` when it sends
/// nothing there: encrypted and emergency messages get
/// [`ENCRYPTED_TTL`] hops, plain text the hops it was typed with, and
/// nothing is sent while no peer is connected.
pub fn mesh_ttl(command: &Command, connected_peers: usize) -> (res: Option<u32>)
    ensures
        res == match command@ {
            CommandView::Encrypt(_) | CommandView::Emergency(_) =>
                if connected_peers > 0 { Some(ENCRYPTED_TTL) } else { None },
            CommandView::Send { ttl, .. } => if connected_peers > 0 { Some(ttl) } else { None },
            _ => None::<u32>,
        },
{
    if connected_peers == 0 {
        return None;
    }
    match command {
        Command::Encrypt(_) | Command::Emergency(_) => Some(ENCRYPTED_TTL),
        Command::Send { ttl, .. } => Some(*ttl),
        _ => None,
    }
}

} // verus!
