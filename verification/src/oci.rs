use vstd::prelude::*;
use vstd::utf8::encode_utf8;
use core::time::Duration;
use crate::copy::strings_view;
use crate::map::{SortedTextMap, keys_increasing, sorted_insert, lemma_sorted_insert_greatest};
use crate::text::find_char;
use crate::keyset::{
    PortSet, VolumeSet, ports_collected, ports_increasing, volumes_collected, volumes_increasing,
    lemma_ports_collected_increasing, lemma_volumes_collected_increasing,
};

verus! {

/// A point in time in UTC: whole seconds since the Unix epoch and the
/// nanoseconds within that second (at least one billion during a leap second).
#[derive(Debug, Clone, Copy, PartialEq, Eq, Structural)]
pub struct Timestamp {
    pub seconds: i64,
    pub nanoseconds: u32,
}

/// The CPU architecture which the binaries in an image are built to run on.
#[derive(Debug, Clone, Copy, PartialEq, Eq, Structural)]
pub enum Architecture {
    /// 64-bit x86, the most mature port
    Amd64,
    /// 32-bit x86
    I386,
    /// 32-bit ARM
    ARM,
    /// 64-bit ARM
    ARM64,
    /// PowerPC 64-bit, little-endian
    PPC64le,
    /// PowerPC 64-bit, big-endian
    PPC64,
    /// MIPS 64-bit, little-endian
    Mips64le,
    /// MIPS 64-bit, big-endian
    Mips64,
    /// MIPS 32-bit, little-endian
    Mipsle,
    /// MIPS 32-bit, big-endian
    Mips,
    /// IBM System z 64-bit, big-endian
    S390x,
    /// 64-bit RISC-V
    Riscv64,
    /// 64-bit LoongArch
    Loong64,
    /// WebAssembly
    Wasm,
}

/// The operating system which an image is built to run on.
#[derive(Debug, Clone, Copy, PartialEq, Eq, Structural)]
pub enum OperatingSystem {
    Aix,
    Android,
    Darwin,
    Dragonfly,
    Freebsd,
    Hurd,
    Illumos,
    Ios,
    Js,
    Linux,
    Netbsd,
    Openbsd,
    Plan9,
    Solaris,
    Windows,
    Zos,
}

/// Kind of the root filesystem description; only `layers` exists.
#[derive(Debug, Clone, Copy, PartialEq, Eq, Structural)]
pub enum RootfsType {
    Layers,
}

/// The system call signal sent to a container to make it exit.
#[derive(Debug, Clone, Copy, PartialEq, Eq, Structural)]
pub enum Signal {
    SIGHUP,
    SIGINT,
    SIGQUIT,
    SIGILL,
    SIGTRAP,
    SIGABRT,
    SIGBUS,
    SIGFPE,
    SIGKILL,
    SIGUSR1,
    SIGSEGV,
    SIGUSR2,
    SIGPIPE,
    SIGALRM,
    SIGTERM,
    SIGSTKFLT,
    SIGCHLD,
    SIGCONT,
    SIGSTOP,
    SIGTSTP,
    SIGTTIN,
    SIGTTOU,
    SIGURG,
    SIGXCPU,
    SIGXFSZ,
    SIGVTALRM,
    SIGPROF,
    SIGWINCH,
    SIGIO,
    SIGPWR,
    SIGSYS,
    SIGEMT,
    SIGINFO,
}

/// A port exposed by a container, with its protocol. Written `<port>/tcp`
/// or `<port>/udp`.
#[derive(Debug, Clone, Copy, PartialEq, Eq, PartialOrd, Ord, Hash, Structural)]
pub enum ExposedPort {
    Tcp(u16),
    Udp(u16),
}

/// Why a text is not a port number (the cases of Rust's `ParseIntError` that
/// an unsigned 16-bit number can meet).
#[derive(Debug, Clone, Copy, PartialEq, Eq, Structural)]
pub enum PortParseError {
    /// The text is empty.
    Empty,
    /// The text holds something other than an optional `+` and decimal digits.
    InvalidDigit,
    /// The number is larger than 65535.
    PosOverflow,
}

impl PortParseError {
    /// The message of the error, as Rust's `ParseIntError` words it.
    pub fn message(&self) -> (r: &'static str)
        ensures
            r@ == match self {
                PortParseError::Empty => "cannot parse integer from empty string"@,
                PortParseError::InvalidDigit => "invalid digit found in string"@,
                PortParseError::PosOverflow => "number too large to fit in target type"@,
            },
    {
        match self {
            PortParseError::Empty => "cannot parse integer from empty string",
            PortParseError::InvalidDigit => "invalid digit found in string",
            PortParseError::PosOverflow => "number too large to fit in target type",
        }
    }
}

/// The UTF-8 bytes of a text.
pub open spec fn text_bytes(s: Seq<char>) -> Seq<u8> {
    encode_utf8(s)
}

/// Whether byte `b` is an ASCII decimal digit.
pub open spec fn is_digit_byte(b: u8) -> bool {
    48 <= b <= 57
}

/// The value of the decimal digits `d`, read left to right, stopping at the
/// first byte that is not a digit or that makes the value exceed 65535.
pub open spec fn parse_digits(d: Seq<u8>) -> Result<int, PortParseError>
    decreases d.len(),
{
    if d.len() == 0 {
        Ok(0)
    } else {
        match parse_digits(d.drop_last()) {
            Err(e) => Err(e),
            Ok(v) => if !is_digit_byte(d.last()) {
                Err(PortParseError::InvalidDigit)
            } else if v * 10 + (d.last() - 48) > 65535 {
                Err(PortParseError::PosOverflow)
            } else {
                Ok(v * 10 + (d.last() - 48))
            },
        }
    }
}

/// The 16-bit number written in `b`: an optional `+` followed by decimal
/// digits, as Rust's `u16::from_str` reads it.
pub open spec fn parse_u16_bytes(b: Seq<u8>) -> Result<u16, PortParseError> {
    if b.len() == 0 {
        Err(PortParseError::Empty)
    } else if (b[0] == 43 || b[0] == 45) && b.len() == 1 {
        Err(PortParseError::InvalidDigit)
    } else {
        let digits = if b[0] == 43 { b.drop_first() } else { b };
        match parse_digits(digits) {
            Ok(v) => Ok(v as u16),
            Err(e) => Err(e),
        }
    }
}

/// The bytes of `/tcp`.
pub open spec fn tcp_suffix() -> Seq<u8> {
    seq![47u8, 116u8, 99u8, 112u8]
}

/// The bytes of `/udp`.
pub open spec fn udp_suffix() -> Seq<u8> {
    seq![47u8, 117u8, 100u8, 112u8]
}

/// The port written in `b`: `<n>/tcp` and `<n>/udp` give the protocol,
/// anything else is read whole as a TCP port number.
pub open spec fn parse_exposed_port_bytes(b: Seq<u8>) -> Result<ExposedPort, PortParseError> {
    let n = b.len() - 4;
    let suffix = b.subrange(n, b.len() as int);
    if suffix == tcp_suffix() {
        match parse_u16_bytes(b.subrange(0, n)) {
            Ok(p) => Ok(ExposedPort::Tcp(p)),
            Err(e) => Err(e),
        }
    } else if suffix == udp_suffix() {
        match parse_u16_bytes(b.subrange(0, n)) {
            Ok(p) => Ok(ExposedPort::Udp(p)),
            Err(e) => Err(e),
        }
    } else {
        match parse_u16_bytes(b) {
            Ok(p) => Ok(ExposedPort::Tcp(p)),
            Err(e) => Err(e),
        }
    }
}

/// The decimal digit character of `d`.
pub open spec fn digit_char(d: nat) -> char {
    (d + 48) as char
}

/// The decimal notation of `n`, without leading zeros.
pub open spec fn decimal_chars(n: nat) -> Seq<char>
    decreases n,
{
    if n < 10 {
        seq![digit_char(n)]
    } else {
        decimal_chars(n / 10) + seq![digit_char(n % 10)]
    }
}

/// How a port is written: its decimal number, then `/tcp` or `/udp`.
pub open spec fn exposed_port_chars(p: ExposedPort) -> Seq<char> {
    match p {
        ExposedPort::Tcp(n) => decimal_chars(n as nat) + "/tcp"@,
        ExposedPort::Udp(n) => decimal_chars(n as nat) + "/udp"@,
    }
}

/// Reads the 16-bit number written in `bytes[..end]`: an optional `+`, then decimal digits.
fn parse_u16(bytes: &[u8], end: usize) -> (r: Result<u16, PortParseError>)
    requires
        end <= bytes@.len(),
    ensures
        r == parse_u16_bytes(bytes@.subrange(0, end as int)),
{
    let ghost b = bytes@.subrange(0, end as int);
    if end == 0 {
        return Err(PortParseError::Empty);
    }
    if (bytes[0] == 43 || bytes[0] == 45) && end == 1 {
        return Err(PortParseError::InvalidDigit);
    }
    let start: usize = if bytes[0] == 43 { 1 } else { 0 };
    let ghost digits = if b[0] == 43 { b.drop_first() } else { b };
    assert(digits =~= bytes@.subrange(start as int, end as int));
    let mut value: u32 = 0;
    let mut i = start;
    assert(bytes@.subrange(start as int, start as int) =~= Seq::<u8>::empty());
    while i < end
        invariant
            start <= i <= end,
            end <= bytes@.len(),
            digits =~= bytes@.subrange(start as int, end as int),
            b == bytes@.subrange(0, end as int),
            parse_u16_bytes(b) == match parse_digits(digits) {
                Ok(v) => Ok::<u16, PortParseError>(v as u16),
                Err(e) => Err(e),
            },
            parse_digits(bytes@.subrange(start as int, i as int)) == Ok::<int, PortParseError>(value as int),
            value <= 65535,
        decreases end - i,
    {
        let c = bytes[i];
        assert(bytes@.subrange(start as int, i + 1).drop_last() =~= bytes@.subrange(start as int, i as int));
        assert(bytes@.subrange(start as int, i + 1).last() == c);
        if c < 48 || c > 57 {
            assert(parse_digits(bytes@.subrange(start as int, i + 1)) == Err::<int, PortParseError>(PortParseError::InvalidDigit));
            assert(digits.subrange(0, i + 1 - start) =~= bytes@.subrange(start as int, i + 1));
            proof {
                lemma_parse_digits_error_prefix(digits, (i + 1 - start) as int);
                assert(parse_digits(digits) == Err::<int, PortParseError>(PortParseError::InvalidDigit));
            }
            return Err(PortParseError::InvalidDigit);
        }
        let next = value * 10 + (c - 48) as u32;
        if next > 65535 {
            assert(parse_digits(bytes@.subrange(start as int, i + 1)) == Err::<int, PortParseError>(PortParseError::PosOverflow));
            assert(digits.subrange(0, i + 1 - start) =~= bytes@.subrange(start as int, i + 1));
            proof {
                lemma_parse_digits_error_prefix(digits, (i + 1 - start) as int);
                assert(parse_digits(digits) == Err::<int, PortParseError>(PortParseError::PosOverflow));
            }
            return Err(PortParseError::PosOverflow);
        }
        value = next;
        i = i + 1;
    }
    Ok(value as u16)
}

/// Once a prefix of the digits fails, the whole fails in the same way.
proof fn lemma_parse_digits_error_prefix(d: Seq<u8>, k: int)
    requires
        0 <= k <= d.len(),
        parse_digits(d.subrange(0, k)) is Err,
    ensures
        parse_digits(d) == parse_digits(d.subrange(0, k)),
    decreases d.len() - k,
{
    if k < d.len() {
        assert(d.subrange(0, k + 1).drop_last() =~= d.subrange(0, k));
        lemma_parse_digits_error_prefix(d, k + 1);
    } else {
        assert(d.subrange(0, k) =~= d);
    }
}

/// Appends the decimal digit `d` to `s`.
fn push_digit(s: &mut String, d: u16)
    requires
        d < 10,
    ensures
        final(s)@ == old(s)@ + seq![digit_char(d as nat)],
{
    proof {
        reveal_strlit("0");
        reveal_strlit("1");
        reveal_strlit("2");
        reveal_strlit("3");
        reveal_strlit("4");
        reveal_strlit("5");
        reveal_strlit("6");
        reveal_strlit("7");
        reveal_strlit("8");
        reveal_strlit("9");
    }
    let digit: &str = match d {
        0 => "0",
        1 => "1",
        2 => "2",
        3 => "3",
        4 => "4",
        5 => "5",
        6 => "6",
        7 => "7",
        8 => "8",
        _ => "9",
    };
    assert(digit@ =~= seq![digit_char(d as nat)]);
    s.append(digit);
}

/// Appends the decimal notation of `n` to `s`.
fn push_decimal(s: &mut String, n: u16)
    ensures
        final(s)@ == old(s)@ + decimal_chars(n as nat),
    decreases n,
{
    if n >= 10 {
        push_decimal(s, n / 10);
    }
    push_digit(s, n % 10);
    proof {
        if n >= 10 {
            assert(old(s)@ + decimal_chars(n as nat) =~= old(s)@ + decimal_chars((n / 10) as nat) + seq![digit_char((n % 10) as nat)]);
        } else {
            assert(decimal_chars(n as nat) =~= seq![digit_char((n % 10) as nat)]);
        }
    }
}

/// The bytes of the decimal notation of `n`.
pub open spec fn decimal_bytes(n: nat) -> Seq<u8> {
    decimal_chars(n).map_values(|c: char| c as u8)
}

/// The byte of a decimal digit character.
proof fn lemma_digit_char(x: nat)
    requires
        x < 10,
    ensures
        digit_char(x) as u8 == x + 48,
        '0' <= digit_char(x) <= '9',
{
}

/// The decimal notation is made of ASCII digits, at least one.
proof fn lemma_decimal_chars_digits(n: nat)
    ensures
        decimal_chars(n).len() >= 1,
        forall|i: int| 0 <= i < decimal_chars(n).len() ==> '0' <= #[trigger] decimal_chars(n)[i] <= '9',
    decreases n,
{
    lemma_digit_char(n % 10);
    if n >= 10 {
        lemma_decimal_chars_digits(n / 10);
    }
}

/// Reading the decimal notation of a 16-bit number gives the number back.
proof fn lemma_parse_decimal(n: nat)
    requires
        n <= 65535,
    ensures
        parse_digits(decimal_bytes(n)) == Ok::<int, PortParseError>(n as int),
    decreases n,
{
    lemma_decimal_chars_digits(n);
    let d = decimal_bytes(n);
    lemma_digit_char(n % 10);
    if n < 10 {
        assert(d.drop_last() =~= Seq::<u8>::empty());
        assert(d.last() == (n + 48) as u8);
        assert(parse_digits(d.drop_last()) == Ok::<int, PortParseError>(0));
    } else {
        lemma_parse_decimal(n / 10);
        assert(d.drop_last() =~= decimal_bytes(n / 10));
        assert(d.last() == ((n % 10) + 48) as u8);
        assert((n / 10) * 10 + n % 10 == n);
        assert(parse_digits(d.drop_last()) == Ok::<int, PortParseError>((n / 10) as int));
    }
}

/// The bytes of a port's notation: its decimal bytes, then the protocol suffix.
proof fn lemma_exposed_port_bytes(p: ExposedPort)
    ensures
        text_bytes(exposed_port_chars(p)) == match p {
            ExposedPort::Tcp(n) => decimal_bytes(n as nat) + tcp_suffix(),
            ExposedPort::Udp(n) => decimal_bytes(n as nat) + udp_suffix(),
        },
{
    reveal_strlit("/tcp");
    reveal_strlit("/udp");
    let (n, suffix) = match p {
        ExposedPort::Tcp(n) => (n, "/tcp"@),
        ExposedPort::Udp(n) => (n, "/udp"@),
    };
    lemma_decimal_chars_digits(n as nat);
    let chars = decimal_chars(n as nat) + suffix;
    assert(vstd::utf8::is_ascii_chars(chars));
    vstd::utf8::is_ascii_chars_encode_utf8(chars);
    match p {
        ExposedPort::Tcp(n) => {
            assert(text_bytes(chars) =~= decimal_bytes(n as nat) + tcp_suffix());
        },
        ExposedPort::Udp(n) => {
            assert(text_bytes(chars) =~= decimal_bytes(n as nat) + udp_suffix());
        },
    }
}

/// Reading back how a port is written gives the port: the notation of every
/// port is accepted by [`ExposedPort::try_from`] and yields that port.
pub proof fn lemma_exposed_port_roundtrip(p: ExposedPort)
    ensures
        text_bytes(exposed_port_chars(p)).len() >= 4,
        vstd::utf8::is_char_boundary(text_bytes(exposed_port_chars(p)), text_bytes(exposed_port_chars(p)).len() - 4),
        parse_exposed_port_bytes(text_bytes(exposed_port_chars(p))) == Ok::<ExposedPort, PortParseError>(p),
{
    lemma_exposed_port_bytes(p);
    let (n, suffix) = match p {
        ExposedPort::Tcp(n) => (n, tcp_suffix()),
        ExposedPort::Udp(n) => (n, udp_suffix()),
    };
    let d = decimal_bytes(n as nat);
    let b = d + suffix;
    lemma_decimal_chars_digits(n as nat);
    lemma_parse_decimal(n as nat);
    let k = b.len() - 4;
    assert(b.subrange(k, b.len() as int) =~= suffix);
    assert(b.subrange(0, k) =~= d);
    assert(d[0] == decimal_chars(n as nat)[0] as u8);
    assert(tcp_suffix()[1] != udp_suffix()[1]);
    assert(parse_u16_bytes(d) == Ok::<u16, PortParseError>(n));
    let chars = exposed_port_chars(p);
    vstd::utf8::encode_utf8_valid_utf8(chars);
    vstd::utf8::is_char_boundary_iff_not_is_continuation_byte(b, k);
}

impl ExposedPort {
    /// How the port is written: `<n>/tcp` or `<n>/udp`.
    pub fn into_string(self) -> (r: String)
        ensures
            r@ == exposed_port_chars(self),
    {
        let mut s = String::new();
        proof {
            reveal_strlit("/tcp");
            reveal_strlit("/udp");
        }
        match self {
            ExposedPort::Tcp(port) => {
                push_decimal(&mut s, port);
                s.append("/tcp");
            },
            ExposedPort::Udp(port) => {
                push_decimal(&mut s, port);
                s.append("/udp");
            },
        }
        s
    }

    /// Reads a port from `<n>/tcp` or `<n>/udp`; any other text is read
    /// whole as a TCP port number. The text must be at least four bytes long
    /// and have a character boundary four bytes before its end.
    pub fn try_from(value: String) -> (r: Result<ExposedPort, PortParseError>)
        requires
            text_bytes(value@).len() >= 4,
            vstd::utf8::is_char_boundary(text_bytes(value@), text_bytes(value@).len() - 4),
        ensures
            r == parse_exposed_port_bytes(text_bytes(value@)),
    {
        let bytes = value.as_str().as_bytes();
        let n = bytes.len();
        let post = n - 4;
        let ghost b = bytes@;
        let ghost suffix = b.subrange(post as int, n as int);
        let is_tcp = bytes[post] == 47 && bytes[post + 1] == 116 && bytes[post + 2] == 99 && bytes[post + 3] == 112;
        let is_udp = bytes[post] == 47 && bytes[post + 1] == 117 && bytes[post + 2] == 100 && bytes[post + 3] == 112;
        assert(is_tcp == (suffix =~= tcp_suffix()));
        assert(is_udp == (suffix =~= udp_suffix()));
        if is_tcp {
            match parse_u16(bytes, post) {
                Ok(p) => Ok(ExposedPort::Tcp(p)),
                Err(e) => Err(e),
            }
        } else if is_udp {
            match parse_u16(bytes, post) {
                Ok(p) => Ok(ExposedPort::Udp(p)),
                Err(e) => Err(e),
            }
        } else {
            assert(b.subrange(0, n as int) =~= b);
            match parse_u16(bytes, n) {
                Ok(p) => Ok(ExposedPort::Tcp(p)),
                Err(e) => Err(e),
            }
        }
    }
}

/// Docker `HEALTHCHECK` payload carried inside the image config.
#[derive(Debug, Clone, PartialEq)]
pub struct Healthcheck {
    /// The probe to run: `["NONE"]` disables an inherited healthcheck,
    /// `["CMD", ...]` runs the arguments, `["CMD-SHELL", "<command line>"]`
    /// runs a command line in the image's default shell.
    pub test: Option<Vec<String>>,
    /// Time between the end of one check and the start of the next.
    pub interval: Option<Duration>,
    /// Maximum time one probe may take before it counts as failed.
    pub timeout: Option<Duration>,
    /// Grace period during which failures do not count against `retries`.
    pub start_period: Option<Duration>,
    /// How often to probe during the start period.
    pub start_interval: Option<Duration>,
    /// Consecutive failures needed to mark the container unhealthy.
    pub retries: Option<u32>,
}

/// The execution parameters used as a base when running a container of the image.
#[derive(Debug, Clone, PartialEq)]
pub struct ImageConfig {
    /// The user name or UID the process runs as.
    pub user: Option<String>,
    /// Ports to expose from a container running this image.
    pub exposed_ports: Option<Vec<ExposedPort>>,
    /// Environment variables of the process, by name.
    pub env: Option<SortedTextMap>,
    /// The command run when the container starts.
    pub entrypoint: Option<Vec<String>>,
    /// Default arguments to the entrypoint.
    pub cmd: Option<Vec<String>>,
    /// Directories where the process is likely to write instance data.
    pub volumes: Option<Vec<String>>,
    /// Working directory of the entrypoint process.
    pub working_dir: Option<String>,
    /// Arbitrary metadata of the container.
    pub labels: Option<SortedTextMap>,
    /// The signal sent to the container to make it exit.
    pub stop_signal: Option<Signal>,
    /// Docker-extension healthcheck definition.
    pub healthcheck: Option<Healthcheck>,
    /// Docker-extension default shell for the shell forms of `RUN`, `CMD`, `ENTRYPOINT`.
    pub shell: Option<Vec<String>>,
    /// Windows-only Docker-extension flag: command arguments are already escaped.
    pub args_escaped: Option<bool>,
}

/// The image config as written in JSON: like [`ImageConfig`], but the
/// environment is a list of `NAME=value` lines, and the exposed ports and
/// the volumes are the keys of JSON objects: sets, each in increasing order.
#[derive(Debug, Clone, PartialEq)]
pub struct RawImageConfig {
    pub user: Option<String>,
    pub exposed_ports: Option<PortSet>,
    pub env: Option<Vec<String>>,
    pub entrypoint: Option<Vec<String>>,
    pub cmd: Option<Vec<String>>,
    pub volumes: Option<VolumeSet>,
    pub working_dir: Option<String>,
    pub labels: Option<SortedTextMap>,
    pub stop_signal: Option<Signal>,
    pub healthcheck: Option<Healthcheck>,
    pub shell: Option<Vec<String>>,
    pub args_escaped: Option<bool>,
}

/// The abstract content of an image config, with the environment of type `E`:
/// pairs for [`ImageConfig`], lines for [`RawImageConfig`].
pub struct ImageConfigFields<E> {
    pub user: Option<Seq<char>>,
    pub exposed_ports: Option<Seq<ExposedPort>>,
    pub env: Option<E>,
    pub entrypoint: Option<Seq<Seq<char>>>,
    pub cmd: Option<Seq<Seq<char>>>,
    pub volumes: Option<Seq<Seq<char>>>,
    pub working_dir: Option<Seq<char>>,
    pub labels: Option<Seq<(Seq<char>, Seq<char>)>>,
    pub stop_signal: Option<Signal>,
    pub healthcheck: Option<Healthcheck>,
    pub shell: Option<Seq<Seq<char>>>,
    pub args_escaped: Option<bool>,
}

/// Text pairs in key order.
pub type EnvPairs = Seq<(Seq<char>, Seq<char>)>;

/// The characters of an optional text.
pub open spec fn opt_text(o: Option<String>) -> Option<Seq<char>> {
    match o {
        Some(s) => Some(s@),
        None => None,
    }
}

/// The texts of an optional list.
pub open spec fn opt_texts(o: Option<Vec<String>>) -> Option<Seq<Seq<char>>> {
    match o {
        Some(v) => Some(strings_view(v@)),
        None => None,
    }
}

/// The elements of an optional list.
pub open spec fn opt_seq<T>(o: Option<Vec<T>>) -> Option<Seq<T>> {
    match o {
        Some(v) => Some(v@),
        None => None,
    }
}

/// The ports of an optional set.
pub open spec fn opt_ports(o: Option<PortSet>) -> Option<Seq<ExposedPort>> {
    match o {
        Some(s) => Some(s.items()),
        None => None,
    }
}

/// The paths of an optional set.
pub open spec fn opt_volumes(o: Option<VolumeSet>) -> Option<Seq<Seq<char>>> {
    match o {
        Some(s) => Some(s.items()),
        None => None,
    }
}

/// The pairs of an optional map.
pub open spec fn opt_pairs(o: Option<SortedTextMap>) -> Option<EnvPairs> {
    match o {
        Some(m) => Some(m.pairs()),
        None => None,
    }
}

impl View for ImageConfig {
    type V = ImageConfigFields<EnvPairs>;

    open spec fn view(&self) -> ImageConfigFields<EnvPairs> {
        ImageConfigFields {
            user: opt_text(self.user),
            exposed_ports: opt_seq(self.exposed_ports),
            env: opt_pairs(self.env),
            entrypoint: opt_texts(self.entrypoint),
            cmd: opt_texts(self.cmd),
            volumes: opt_texts(self.volumes),
            working_dir: opt_text(self.working_dir),
            labels: opt_pairs(self.labels),
            stop_signal: self.stop_signal,
            healthcheck: self.healthcheck,
            shell: opt_texts(self.shell),
            args_escaped: self.args_escaped,
        }
    }
}

impl View for RawImageConfig {
    type V = ImageConfigFields<Seq<Seq<char>>>;

    open spec fn view(&self) -> ImageConfigFields<Seq<Seq<char>>> {
        ImageConfigFields {
            user: opt_text(self.user),
            exposed_ports: opt_ports(self.exposed_ports),
            env: opt_texts(self.env),
            entrypoint: opt_texts(self.entrypoint),
            cmd: opt_texts(self.cmd),
            volumes: opt_volumes(self.volumes),
            working_dir: opt_text(self.working_dir),
            labels: opt_pairs(self.labels),
            stop_signal: self.stop_signal,
            healthcheck: self.healthcheck,
            shell: opt_texts(self.shell),
            args_escaped: self.args_escaped,
        }
    }
}

/// The environment line `NAME=value`.
pub open spec fn env_line(name: Seq<char>, value: Seq<char>) -> Seq<char> {
    name + seq!['='] + value
}

/// The environment lines of the pairs, in order.
pub open spec fn env_lines(p: EnvPairs) -> Seq<Seq<char>> {
    p.map_values(|e: (Seq<char>, Seq<char>)| env_line(e.0, e.1))
}

/// A line split at its first `=` into name and value; a line without `=`
/// is a name with an empty value.
pub open spec fn split_env_line(s: Seq<char>) -> (Seq<char>, Seq<char>) {
    match s.index_of_first('=') {
        Some(i) => (s.subrange(0, i), s.subrange(i + 1, s.len() as int)),
        None => (s, Seq::empty()),
    }
}

/// The environment of the lines, in name order; a later line for a name
/// replaces an earlier one.
pub open spec fn env_pairs(lines: Seq<Seq<char>>) -> EnvPairs
    decreases lines.len(),
{
    if lines.len() == 0 {
        Seq::empty()
    } else {
        let (k, v) = split_env_line(lines.last());
        sorted_insert(env_pairs(lines.drop_last()), k, v)
    }
}

/// The JSON form of a config: the environment becomes lines, and the
/// exposed ports and the volumes become sets (see [`ports_collected`] and
/// [`volumes_collected`]).
pub open spec fn raw_of_config(c: ImageConfigFields<EnvPairs>) -> ImageConfigFields<Seq<Seq<char>>> {
    ImageConfigFields {
        user: c.user,
        exposed_ports: match c.exposed_ports {
            Some(ps) => Some(ports_collected(ps)),
            None => None,
        },
        env: match c.env {
            Some(p) => Some(env_lines(p)),
            None => None,
        },
        entrypoint: c.entrypoint,
        cmd: c.cmd,
        volumes: match c.volumes {
            Some(vs) => Some(volumes_collected(vs)),
            None => None,
        },
        working_dir: c.working_dir,
        labels: c.labels,
        stop_signal: c.stop_signal,
        healthcheck: c.healthcheck,
        shell: c.shell,
        args_escaped: c.args_escaped,
    }
}

/// The config of a JSON form: the lines become the environment.
pub open spec fn config_of_raw(r: ImageConfigFields<Seq<Seq<char>>>) -> ImageConfigFields<EnvPairs> {
    ImageConfigFields {
        user: r.user,
        exposed_ports: r.exposed_ports,
        env: match r.env {
            Some(lines) => Some(env_pairs(lines)),
            None => None,
        },
        entrypoint: r.entrypoint,
        cmd: r.cmd,
        volumes: r.volumes,
        working_dir: r.working_dir,
        labels: r.labels,
        stop_signal: r.stop_signal,
        healthcheck: r.healthcheck,
        shell: r.shell,
        args_escaped: r.args_escaped,
    }
}

/// The environment of the lines `lines`.
fn env_from_lines(lines: Vec<String>) -> (r: SortedTextMap)
    ensures
        r.pairs() == env_pairs(strings_view(lines@)),
        keys_increasing(r.pairs()),
{
    let mut map = SortedTextMap::new();
    let mut i: usize = 0;
    assert(strings_view(lines@).subrange(0, 0) =~= Seq::<Seq<char>>::empty());
    while i < lines.len()
        invariant
            i <= lines@.len(),
            map.pairs() == env_pairs(strings_view(lines@).subrange(0, i as int)),
            keys_increasing(map.pairs()),
        decreases lines@.len() - i,
    {
        let line = lines[i].as_str();
        let n = line.unicode_len();
        let ghost l = line@;
        assert(strings_view(lines@).subrange(0, i + 1).drop_last() =~= strings_view(lines@).subrange(0, i as int));
        assert(strings_view(lines@).subrange(0, i + 1).last() == l);
        match find_char(line, '=', 0) {
            Some(pos) => {
                proof {
                    l.index_of_first_ensures('=');
                    let k = l.index_of_first('=').unwrap();
                    if k < pos {
                        assert(l[k] != '=');
                    }
                    if pos < k {
                        assert(l[pos as int] != '=');
                    }
                }
                let name = line.substring_char(0, pos).to_owned();
                let value = line.substring_char(pos + 1, n).to_owned();
                map.insert(name, value);
            },
            None => {
                proof {
                    l.index_of_first_ensures('=');
                    if l.index_of_first('=') is Some {
                        let k = l.index_of_first('=').unwrap();
                        assert(l[k] == '=');
                    }
                }
                map.insert(line.to_owned(), String::new());
            },
        }
        i = i + 1;
    }
    assert(strings_view(lines@).subrange(0, lines@.len() as int) =~= strings_view(lines@));
    map
}

/// The `NAME=value` lines of an environment, in name order.
fn env_to_lines(env: &SortedTextMap) -> (r: Vec<String>)
    ensures
        strings_view(r@) == env_lines(env.pairs()),
        keys_increasing(env.pairs()),
{
    let mut lines: Vec<String> = Vec::new();
    let mut i: usize = 0;
    proof {
        reveal_strlit("=");
        assert("="@ =~= seq!['=']);
    }
    while i < env.len()
        invariant
            i <= env.pairs().len(),
            lines@.len() == i,
            forall|j: int| 0 <= j < i ==> #[trigger] lines@[j]@ == env_line(env.pairs()[j].0, env.pairs()[j].1),
        decreases env.pairs().len() - i,
    {
        let (name, value) = env.entry(i);
        let mut line = name.clone();
        line.append("=");
        line.append(value.as_str());
        proof {
            reveal_strlit("=");
            assert("="@ =~= seq!['=']);
        }
        assert(line@ =~= env_line(env.pairs()[i as int].0, env.pairs()[i as int].1));
        lines.push(line);
        i = i + 1;
    }
    assert(strings_view(lines@) =~= env_lines(env.pairs()));
    lines
}

impl ImageConfig {
    /// The config with every field absent.
    pub fn empty() -> (r: ImageConfig)
        ensures
            r.user is None,
            r.exposed_ports is None,
            r.env is None,
            r.entrypoint is None,
            r.cmd is None,
            r.volumes is None,
            r.working_dir is None,
            r.labels is None,
            r.stop_signal is None,
            r.healthcheck is None,
            r.shell is None,
            r.args_escaped is None,
    {
        ImageConfig {
            user: None,
            exposed_ports: None,
            env: None,
            entrypoint: None,
            cmd: None,
            volumes: None,
            working_dir: None,
            labels: None,
            stop_signal: None,
            healthcheck: None,
            shell: None,
            args_escaped: None,
        }
    }

    /// The config read from its JSON form: each `NAME=value` line is split at
    /// its first `=` (a line without one is a name with an empty value) and
    /// the pairs are kept in name order, a later line for a name replacing an
    /// earlier one; the exposed ports and the volumes come in the sets'
    /// increasing order; every other field is carried over.
    pub fn from_raw(raw: RawImageConfig) -> (r: ImageConfig)
        ensures
            r@ == config_of_raw(raw@),
            r.user == raw.user,
            r.entrypoint == raw.entrypoint,
            r.cmd == raw.cmd,
            r.working_dir == raw.working_dir,
            r.labels == raw.labels,
            r.stop_signal == raw.stop_signal,
            r.healthcheck == raw.healthcheck,
            r.shell == raw.shell,
            r.args_escaped == raw.args_escaped,
            opt_ports(raw.exposed_ports) == opt_seq(r.exposed_ports),
            opt_volumes(raw.volumes) == opt_texts(r.volumes),
            r.env matches Some(m) ==> keys_increasing(m.pairs()),
            r.exposed_ports matches Some(v) ==> ports_increasing(v@),
            r.volumes matches Some(v) ==> volumes_increasing(strings_view(v@)),
    {
        let env = match raw.env {
            Some(lines) => Some(env_from_lines(lines)),
            None => None,
        };
        let exposed_ports = match raw.exposed_ports {
            Some(set) => Some(set.into_vec()),
            None => None,
        };
        let volumes = match raw.volumes {
            Some(set) => Some(set.into_vec()),
            None => None,
        };
        ImageConfig {
            user: raw.user,
            exposed_ports,
            env,
            entrypoint: raw.entrypoint,
            cmd: raw.cmd,
            volumes,
            working_dir: raw.working_dir,
            labels: raw.labels,
            stop_signal: raw.stop_signal,
            healthcheck: raw.healthcheck,
            shell: raw.shell,
            args_escaped: raw.args_escaped,
        }
    }

    /// The JSON form of the config: the environment becomes `NAME=value`
    /// lines in name order; the exposed ports and the volumes become sets in
    /// increasing order, a repeated port or path kept once (of several texts
    /// naming one path, the last); every other field is carried over.
    pub fn into_raw(self) -> (r: RawImageConfig)
        ensures
            r@ == raw_of_config(self@),
            r.user == self.user,
            r.entrypoint == self.entrypoint,
            r.cmd == self.cmd,
            r.working_dir == self.working_dir,
            r.labels == self.labels,
            r.stop_signal == self.stop_signal,
            r.healthcheck == self.healthcheck,
            r.shell == self.shell,
            r.args_escaped == self.args_escaped,
            r@.env matches Some(lines) ==> exists|p: EnvPairs| keys_increasing(p) && lines == #[trigger] env_lines(p),
            r@.exposed_ports matches Some(v) ==> ports_increasing(v),
            r@.volumes matches Some(v) ==> volumes_increasing(v),
    {
        let env = match &self.env {
            Some(map) => Some(env_to_lines(map)),
            None => None,
        };
        let exposed_ports = match &self.exposed_ports {
            Some(ports) => Some(PortSet::from_list(ports)),
            None => None,
        };
        let volumes = match &self.volumes {
            Some(paths) => Some(VolumeSet::from_list(paths)),
            None => None,
        };
        RawImageConfig {
            user: self.user,
            exposed_ports,
            env,
            entrypoint: self.entrypoint,
            cmd: self.cmd,
            volumes,
            working_dir: self.working_dir,
            labels: self.labels,
            stop_signal: self.stop_signal,
            healthcheck: self.healthcheck,
            shell: self.shell,
            args_escaped: self.args_escaped,
        }
    }
}

impl Default for ImageConfig {
    fn default() -> (r: ImageConfig)
        ensures
            r.user is None,
            r.exposed_ports is None,
            r.env is None,
            r.entrypoint is None,
            r.cmd is None,
            r.volumes is None,
            r.working_dir is None,
            r.labels is None,
            r.stop_signal is None,
            r.healthcheck is None,
            r.shell is None,
            r.args_escaped is None,
    {
        ImageConfig::empty()
    }
}

/// The root filesystem of an image: the layer content addresses.
#[derive(Debug, Clone, PartialEq)]
pub struct ImageRootfs {
    /// Always `RootfsType::Layers`.
    pub diff_type: RootfsType,
    /// Layer content hashes (DiffIDs), from first to last.
    pub diff_ids: Vec<String>,
}

/// Describes the history of a layer.
#[derive(Debug, Clone, PartialEq)]
pub struct LayerHistoryItem {
    /// When the layer was created.
    pub created: Option<Timestamp>,
    /// The author of the build point.
    pub author: Option<String>,
    /// The command which created the layer.
    pub created_by: Option<String>,
    /// A custom message set when creating the layer.
    pub comment: Option<String>,
    /// Whether the history item created no filesystem diff (such as `ENV`).
    pub empty_layer: Option<bool>,
}

/// An OCI image configuration.
#[derive(Debug, Clone, PartialEq)]
pub struct ImageSpecification {
    /// When the image was created.
    pub created: Option<Timestamp>,
    /// The person or entity that created and maintains the image.
    pub author: Option<String>,
    /// The CPU architecture the binaries are built for.
    pub architecture: Architecture,
    /// The operating system the image is built for.
    pub os: OperatingSystem,
    /// Version of the operating system (`os.version`).
    pub os_version: Option<String>,
    /// Operating system features the image needs (`os.features`).
    pub os_features: Option<Vec<String>>,
    /// CPU variant (`v7`, `v8`, ...).
    pub variant: Option<String>,
    /// The execution parameters of a container of the image.
    pub config: Option<ImageConfig>,
    /// The layers of the image.
    pub rootfs: Option<ImageRootfs>,
    /// The history of each layer.
    pub history: Option<Vec<LayerHistoryItem>>,
}

/// Platform a manifest targets.
#[derive(Debug, Clone, PartialEq)]
pub struct Platform {
    pub architecture: Architecture,
    pub os: OperatingSystem,
    pub variant: Option<String>,
    pub os_version: Option<String>,
    pub os_features: Option<Vec<String>>,
}

/// Content descriptor: points at a manifest of an index, or at the config
/// or a layer blob of a manifest.
#[derive(Debug, Clone, PartialEq)]
pub struct Descriptor {
    pub media_type: String,
    pub digest: String,
    pub size: u64,
    pub platform: Option<Platform>,
    pub annotations: Option<SortedTextMap>,
    pub urls: Option<Vec<String>>,
    /// Inline blob payload, base64-encoded.
    pub data: Option<String>,
    pub artifact_type: Option<String>,
}

/// OCI image index: the per-platform manifests of a multi-platform image.
#[derive(Debug, Clone, PartialEq)]
pub struct ImageIndex {
    pub schema_version: u32,
    pub media_type: Option<String>,
    pub artifact_type: Option<String>,
    pub manifests: Vec<Descriptor>,
    pub subject: Option<Descriptor>,
    pub annotations: Option<SortedTextMap>,
}

/// OCI image manifest: the descriptors of the config blob and the layer blobs.
#[derive(Debug, Clone, PartialEq)]
pub struct ImageManifest {
    pub schema_version: u32,
    pub media_type: Option<String>,
    pub artifact_type: Option<String>,
    pub config: Descriptor,
    pub layers: Vec<Descriptor>,
    pub subject: Option<Descriptor>,
    pub annotations: Option<SortedTextMap>,
}

/// Whether no name of the pairs holds `=`.
pub open spec fn names_without_equals(p: EnvPairs) -> bool {
    forall|i: int| 0 <= i < p.len() ==> !(#[trigger] p[i].0).contains('=')
}

/// Splitting `NAME=value` at its first `=` gives back the name and the value
/// when the name holds no `=`.
proof fn lemma_split_env_line(name: Seq<char>, value: Seq<char>)
    requires
        !name.contains('='),
    ensures
        split_env_line(env_line(name, value)) == (name, value),
{
    let l = env_line(name, value);
    let n = name.len() as int;
    l.index_of_first_ensures('=');
    assert(l[n] == '=');
    let k = l.index_of_first('=').unwrap();
    if k < n {
        assert(l[k] == name[k]);
    }
    assert(l.subrange(0, n) =~= name);
    assert(l.subrange(n + 1, l.len() as int) =~= value);
}

/// Reading the lines of an environment gives the environment back, when its
/// names are in increasing order and hold no `=`.
pub proof fn lemma_env_lines_roundtrip(p: EnvPairs)
    requires
        keys_increasing(p),
        names_without_equals(p),
    ensures
        env_pairs(env_lines(p)) == p,
    decreases p.len(),
{
    if p.len() > 0 {
        let q = p.drop_last();
        assert(env_lines(p).drop_last() =~= env_lines(q));
        assert forall|a: int, b: int| 0 <= a < b < q.len() implies crate::text::text_lt(#[trigger] q[a].0, #[trigger] q[b].0) by {
            assert(q[a] == p[a] && q[b] == p[b]);
        }
        assert forall|i: int| 0 <= i < q.len() implies !(#[trigger] q[i].0).contains('=') by {
            assert(q[i] == p[i]);
        }
        lemma_env_lines_roundtrip(q);
        let (k, v) = p.last();
        assert(env_lines(p).last() == env_line(k, v));
        assert(!p[p.len() - 1].0.contains('='));
        lemma_split_env_line(k, v);
        assert forall|j: int| 0 <= j < q.len() implies crate::text::text_lt(#[trigger] q[j].0, k) by {
            assert(q[j] == p[j]);
        }
        lemma_sorted_insert_greatest(q, k, v);
        assert(q.push((k, v)) =~= p);
    } else {
        assert(env_lines(p) =~= Seq::<Seq<char>>::empty());
    }
}

/// Writing a config in its JSON form and reading it back gives the config
/// back, when its environment names are in increasing order (as a map keeps
/// them) and hold no `=`, and its exposed ports and volumes strictly increase
/// (as the keys of a map do).
pub proof fn lemma_config_raw_roundtrip(c: ImageConfigFields<EnvPairs>)
    requires
        c.env matches Some(p) ==> keys_increasing(p) && names_without_equals(p),
        c.exposed_ports matches Some(ps) ==> ports_increasing(ps),
        c.volumes matches Some(vs) ==> volumes_increasing(vs),
    ensures
        config_of_raw(raw_of_config(c)) == c,
{
    if let Some(p) = c.env {
        lemma_env_lines_roundtrip(p);
    }
    if let Some(ps) = c.exposed_ports {
        lemma_ports_collected_increasing(ps);
    }
    if let Some(vs) = c.volumes {
        lemma_volumes_collected_increasing(vs);
    }
}

/// Reading a JSON form and writing it again gives the same JSON form, when
/// its environment lines are `NAME=value` lines with names in increasing
/// order that hold no `=`.
pub proof fn lemma_raw_config_roundtrip(r: ImageConfigFields<Seq<Seq<char>>>)
    requires
        r.exposed_ports matches Some(ps) ==> ports_increasing(ps),
        r.volumes matches Some(vs) ==> volumes_increasing(vs),
        r.env matches Some(lines) ==> exists|p: EnvPairs|
            keys_increasing(p) && names_without_equals(p) && lines == #[trigger] env_lines(p),
    ensures
        raw_of_config(config_of_raw(r)) == r,
{
    if let Some(lines) = r.env {
        let p = choose|p: EnvPairs| keys_increasing(p) && names_without_equals(p) && lines == #[trigger] env_lines(p);
        lemma_env_lines_roundtrip(p);
    }
    if let Some(ps) = r.exposed_ports {
        lemma_ports_collected_increasing(ps);
    }
    if let Some(vs) = r.volumes {
        lemma_volumes_collected_increasing(vs);
    }
}

/// Each field that the JSON form writes as it is goes to the field of the
/// same name, both ways: user, entrypoint, command, working directory,
/// labels, stop signal, healthcheck, shell and escaped-arguments flag are
/// carried over unchanged, and neither direction moves one field's value
/// into another. A config has an environment, ports or volumes exactly when
/// its JSON form has them.
pub proof fn lemma_config_raw_fields(c: ImageConfigFields<EnvPairs>, r: ImageConfigFields<Seq<Seq<char>>>)
    ensures
        raw_of_config(c).user == c.user && config_of_raw(r).user == r.user,
        raw_of_config(c).entrypoint == c.entrypoint && config_of_raw(r).entrypoint == r.entrypoint,
        raw_of_config(c).cmd == c.cmd && config_of_raw(r).cmd == r.cmd,
        raw_of_config(c).working_dir == c.working_dir && config_of_raw(r).working_dir == r.working_dir,
        raw_of_config(c).labels == c.labels && config_of_raw(r).labels == r.labels,
        raw_of_config(c).stop_signal == c.stop_signal && config_of_raw(r).stop_signal == r.stop_signal,
        raw_of_config(c).healthcheck == c.healthcheck && config_of_raw(r).healthcheck == r.healthcheck,
        raw_of_config(c).shell == c.shell && config_of_raw(r).shell == r.shell,
        raw_of_config(c).args_escaped == c.args_escaped && config_of_raw(r).args_escaped == r.args_escaped,
        raw_of_config(c).env is Some <==> c.env is Some,
        config_of_raw(r).env is Some <==> r.env is Some,
        raw_of_config(c).exposed_ports is Some <==> c.exposed_ports is Some,
        config_of_raw(r).exposed_ports == r.exposed_ports,
        raw_of_config(c).volumes is Some <==> c.volumes is Some,
        config_of_raw(r).volumes == r.volumes,
{
}

} // verus!
