use vstd::prelude::*;

use crate::json::JsonValue;
use crate::keyed::Keyed;
use crate::module::{
    InputSpec, ModuleMetadata, ModuleResult, OutputSpec, RiskLevel, SecVError, SecVModule,
};
use crate::text::{current_timestamp, decimal, decimal_text, split_at_char, split_text};

verus! {

/// Whether `c` belongs to one of Unicode's number categories.
pub uninterp spec fn numeric_char(c: char) -> bool;

/// Relies on `char::is_numeric`: true for the characters whose Unicode
/// general category is a number category, among them the ASCII digits.
#[verifier::external_body]
fn char_is_numeric(c: char) -> (r: bool)
    ensures
        r == numeric_char(c),
        '0' <= c <= '9' ==> r,
{
    c.is_numeric()
}

pub open spec fn has_numeric(s: Seq<char>) -> bool {
    exists|i: int| 0 <= i < s.len() && numeric_char(#[trigger] s[i])
}

/// Whether some character of `s` is numeric.
pub fn contains_numeric(s: &str) -> (r: bool)
    ensures
        r == has_numeric(s@),
{
    let n = s.unicode_len();
    let mut i: usize = 0;
    while i < n
        invariant
            n == s@.len(),
            i <= n,
            forall|j: int| 0 <= j < i ==> !numeric_char(#[trigger] s@[j]),
        decreases n - i,
    {
        if char_is_numeric(s.get_char(i)) {
            return true;
        }
        i = i + 1;
    }
    false
}

/// The inputs a port scan accepts: a target, and a port range that, when
/// given as text, holds at least one digit.
pub open spec fn scan_inputs_valid(p: Keyed<JsonValue>) -> bool {
    &&& p.has("target"@)
    &&& match p.at("ports"@) {
        Some(JsonValue::Str(t)) => has_numeric(t@),
        _ => true,
    }
}

fn input_spec(description: &str, required: bool, default_value: Option<&str>, pattern: &str) -> (r:
    InputSpec)
    ensures
        r.description@ == description@,
        r.input_type@ == "string"@,
        r.required == required,
        match default_value {
            Some(d) => r.default_value matches Some(v) && v@ == d@,
            None => r.default_value is None,
        },
        r.validation_regex matches Some(v) && v@ == pattern@,
{
    InputSpec {
        description: String::from_str(description),
        input_type: String::from_str("string"),
        required,
        default_value: match default_value {
            Some(d) => Some(String::from_str(d)),
            None => None,
        },
        validation_regex: Some(String::from_str(pattern)),
    }
}

fn output_spec(description: &str, output_type: &str, format: &str) -> (r: OutputSpec)
    ensures
        r.description@ == description@,
        r.output_type@ == output_type@,
        r.format@ == format@,
{
    OutputSpec {
        description: String::from_str(description),
        output_type: String::from_str(output_type),
        format: String::from_str(format),
    }
}

/// A port scanner built on the `nmap` binary.
#[derive(Debug)]
pub struct NetworkScannerModule {
    metadata: ModuleMetadata,
}

impl NetworkScannerModule {
    pub closed spec fn descriptor(&self) -> ModuleMetadata {
        self.metadata
    }

    pub fn new() -> (r: Self)
        ensures
            r.descriptor().name@ == "network-scanner"@,
            r.descriptor().version@ == "2.0.0"@,
            r.descriptor().category@ == "reconnaissance"@,
            r.descriptor().risk_level == RiskLevel::Low,
            r.descriptor().dependencies@.len() == 1,
            r.descriptor().dependencies@[0]@ == "nmap"@,
            r.descriptor().inputs.at("target"@) matches Some(s) && s.required,
            r.descriptor().inputs.at("ports"@) matches Some(s) && !s.required
                && (s.default_value matches Some(d) && d@ == "1-1000"@),
            r.descriptor().inputs.at("scan_type"@) matches Some(s) && !s.required
                && (s.default_value matches Some(d) && d@ == "tcp"@),
            r.descriptor().outputs.has("open_ports"@),
            r.descriptor().outputs.has("scan_duration"@),
            forall|k: Seq<char>| #[trigger]
                r.descriptor().inputs.has(k) ==> k == "target"@ || k == "ports"@ || k
                    == "scan_type"@,
            forall|k: Seq<char>| #[trigger]
                r.descriptor().outputs.has(k) ==> k == "open_ports"@ || k == "scan_duration"@,
            r.descriptor().inputs.bindings().len() == 3,
            r.descriptor().outputs.bindings().len() == 2,
    {
        let mut inputs: Keyed<InputSpec> = Keyed::new();
        inputs.insert(
            String::from_str("target"),
            input_spec("Target IP address or hostname", true, None, "^[\\w\\.-]+$"),
        );
        inputs.insert(
            String::from_str("ports"),
            input_spec(
                "Port range to scan (e.g., 1-1000)",
                false,
                Some("1-1000"),
                "^\\d+(-\\d+)?$",
            ),
        );
        inputs.insert(
            String::from_str("scan_type"),
            input_spec("Type of scan (tcp, udp, syn)", false, Some("tcp"), "^(tcp|udp|syn)$"),
        );
        proof {
            reveal_strlit("target");
            reveal_strlit("ports");
            reveal_strlit("scan_type");
            assert("target"@[0] != "ports"@[0]);
            assert("target"@[0] != "scan_type"@[0]);
            assert("ports"@[0] != "scan_type"@[0]);
        }
        let mut outputs: Keyed<OutputSpec> = Keyed::new();
        outputs.insert(
            String::from_str("open_ports"),
            output_spec("List of open ports discovered", "array", "json"),
        );
        outputs.insert(
            String::from_str("scan_duration"),
            output_spec("Time taken for the scan in seconds", "number", "float"),
        );
        proof {
            reveal_strlit("open_ports");
            reveal_strlit("scan_duration");
            assert("open_ports"@[0] != "scan_duration"@[0]);
        }
        let metadata = ModuleMetadata {
            name: String::from_str("network-scanner"),
            version: String::from_str("2.0.0"),
            category: String::from_str("reconnaissance"),
            description: String::from_str("Advanced network port scanner with multiple scan types"),
            author: String::from_str("SecV Core Team"),
            dependencies: vec![String::from_str("nmap")],
            inputs,
            outputs,
            capabilities: vec![
                String::from_str("port-scanning"),
                String::from_str("service-detection"),
                String::from_str("os-fingerprinting"),
            ],
            risk_level: RiskLevel::Low,
        };
        NetworkScannerModule { metadata }
    }
}

impl SecVModule for NetworkScannerModule {
    fn metadata(&self) -> (r: &ModuleMetadata)
        ensures
            *r == self.descriptor(),
    {
        &self.metadata
    }

    /// Requires a target; a port range given as text must hold a digit.
    fn validate_inputs(&self, inputs: &Keyed<JsonValue>) -> (r: Result<(), SecVError>)
        ensures
            r is Ok <==> scan_inputs_valid(*inputs),
            r matches Err(e) ==> e matches SecVError::ValidationFailed(m) && if !inputs.has(
                "target"@,
            ) {
                m@ == "Target is required"@
            } else {
                m@ == "Invalid port range format"@
            },
    {
        if !inputs.contains_key("target") {
            return Err(SecVError::ValidationFailed(String::from_str("Target is required")));
        }
        if let Some(ports) = inputs.get("ports") {
            if let Some(text) = ports.as_str() {
                if !contains_numeric(text) {
                    return Err(
                        SecVError::ValidationFailed(String::from_str("Invalid port range format")),
                    );
                }
            }
        }
        Ok(())
    }
}

/// The text with which a port scan rejects its inputs.
pub open spec fn scan_rejection_text(p: Keyed<JsonValue>) -> Seq<char> {
    if !p.has("target"@) {
        "Target is required"@
    } else {
        "Invalid port range format"@
    }
}

/// Whether `c` has Unicode's White_Space property, the test that
/// `char::is_whitespace` makes.
pub open spec fn whitespace_char(c: char) -> bool {
    let u = c as u32;
    ||| 0x09 <= u <= 0x0D
    ||| u == 0x20
    ||| u == 0x85
    ||| u == 0xA0
    ||| u == 0x1680
    ||| 0x2000 <= u <= 0x200A
    ||| u == 0x2028
    ||| u == 0x2029
    ||| u == 0x202F
    ||| u == 0x205F
    ||| u == 0x3000
}

/// Whether `c` is whitespace.
pub fn char_is_whitespace(c: char) -> (r: bool)
    ensures
        r == whitespace_char(c),
{
    let u = c as u32;
    (0x09 <= u && u <= 0x0D) || u == 0x20 || u == 0x85 || u == 0xA0 || u == 0x1680 || (0x2000 <= u
        && u <= 0x200A) || u == 0x2028 || u == 0x2029 || u == 0x202F || u == 0x205F || u == 0x3000
}

/// `s` without its leading and trailing whitespace.
pub open spec fn trimmed(s: Seq<char>) -> Seq<char> {
    let lead = choose_lead(s);
    let tail = choose_tail(s);
    if lead >= tail {
        Seq::empty()
    } else {
        s.subrange(lead, tail)
    }
}

/// Number of whitespace characters at the start of `s`.
pub open spec fn choose_lead(s: Seq<char>) -> int
    decreases s.len(),
{
    if s.len() > 0 && whitespace_char(s[0]) {
        1 + choose_lead(s.drop_first())
    } else {
        0
    }
}

/// Length of `s` without the whitespace at its end.
pub open spec fn choose_tail(s: Seq<char>) -> int
    decreases s.len(),
{
    if s.len() > 0 && whitespace_char(s.last()) {
        choose_tail(s.drop_last())
    } else {
        s.len() as int
    }
}

proof fn lemma_lead_bounds(s: Seq<char>)
    ensures
        0 <= choose_lead(s) <= s.len(),
    decreases s.len(),
{
    if s.len() > 0 && whitespace_char(s[0]) {
        lemma_lead_bounds(s.drop_first());
    }
}

proof fn lemma_tail_bounds(s: Seq<char>)
    ensures
        0 <= choose_tail(s) <= s.len(),
    decreases s.len(),
{
    if s.len() > 0 && whitespace_char(s.last()) {
        lemma_tail_bounds(s.drop_last());
    }
}

/// Removes leading and trailing whitespace.
pub fn trim_text(s: &str) -> (r: String)
    ensures
        r@ == trimmed(s@),
{
    let n = s.unicode_len();
    let mut lead: usize = 0;
    assert(s@.subrange(0, n as int) =~= s@);
    while lead < n && char_is_whitespace(s.get_char(lead))
        invariant
            n == s@.len(),
            lead <= n,
            choose_lead(s@) == lead + choose_lead(s@.subrange(lead as int, n as int)),
        decreases n - lead,
    {
        assert(s@.subrange(lead as int, n as int).drop_first() =~= s@.subrange(lead + 1, n as int));
        lead = lead + 1;
    }
    proof {
        if lead < n {
            assert(s@.subrange(lead as int, n as int)[0] == s@[lead as int]);
        }
        assert(choose_lead(s@.subrange(lead as int, n as int)) == 0);
    }
    let mut tail: usize = n;
    proof {
        assert(s@.subrange(0, n as int) =~= s@);
    }
    while tail > 0 && char_is_whitespace(s.get_char(tail - 1))
        invariant
            n == s@.len(),
            tail <= n,
            choose_tail(s@) == choose_tail(s@.subrange(0, tail as int)),
        decreases tail,
    {
        assert(s@.subrange(0, tail as int).drop_last() =~= s@.subrange(0, tail - 1));
        tail = tail - 1;
    }
    proof {
        if tail > 0 {
            assert(s@.subrange(0, tail as int).last() == s@[tail - 1]);
        }
        assert(choose_tail(s@.subrange(0, tail as int)) == tail);
    }
    if lead >= tail {
        String::new()
    } else {
        String::from_str(s.substring_char(lead, tail))
    }
}

/// Whether `t` occurs in `s`.
pub open spec fn has_infix(s: Seq<char>, t: Seq<char>) -> bool {
    exists|i: int| 0 <= i && i + t.len() <= s.len() && #[trigger] s.subrange(i, i + t.len()) == t
}

/// Whether `t` occurs in `s`.
pub fn contains_text(s: &str, t: &str) -> (r: bool)
    ensures
        r == has_infix(s@, t@),
{
    let n = s.unicode_len();
    let m = t.unicode_len();
    if m > n {
        proof {
            assert forall|i: int| 0 <= i && i + t@.len() <= s@.len() implies #[trigger] s@.subrange(
                i,
                i + t@.len(),
            ) != t@ by {}
        }
        return false;
    }
    let mut i: usize = 0;
    while i <= n - m
        invariant
            n == s@.len(),
            m == t@.len(),
            m <= n,
            i <= n - m + 1,
            forall|a: int| 0 <= a < i ==> #[trigger] s@.subrange(a, a + m) != t@,
        decreases n - m + 1 - i,
    {
        let mut j: usize = 0;
        let mut same = true;
        while j < m
            invariant
                n == s@.len(),
                m == t@.len(),
                i + m <= n,
                j <= m,
                same == forall|b: int| 0 <= b < j ==> s@[i + b] == t@[b],
            decreases m - j,
        {
            if s.get_char(i + j) != t.get_char(j) {
                same = false;
            }
            j = j + 1;
        }
        if same {
            assert(s@.subrange(i as int, i + m) =~= t@);
            return true;
        }
        proof {
            assert(s@.subrange(i as int, i + m) != t@) by {
                let b = choose|b: int| 0 <= b < m && s@[i + b] != t@[b];
                assert(s@.subrange(i as int, i + m)[b] == s@[i + b]);
            }
        }
        i = i + 1;
    }
    false
}

/// Whether `c` is an ASCII digit.
pub open spec fn is_digit(c: char) -> bool {
    '0' <= c <= '9'
}

/// The value of the ASCII digit `c`.
pub open spec fn digit_value(c: char) -> nat {
    ((c as u32) - ('0' as u32)) as nat
}

/// The number that the digits of `s` write in base ten.
pub open spec fn digits_value(s: Seq<char>) -> nat
    decreases s.len(),
{
    if s.len() == 0 {
        0
    } else {
        digits_value(s.drop_last()) * 10 + digit_value(s.last())
    }
}

/// Every character of `s` is an ASCII digit.
pub open spec fn all_digits(s: Seq<char>) -> bool {
    forall|i: int| 0 <= i < s.len() ==> is_digit(#[trigger] s[i])
}

/// `s` without a leading `+`.
pub open spec fn unsigned_part(s: Seq<char>) -> Seq<char> {
    if s.len() > 0 && s[0] == '+' {
        s.drop_first()
    } else {
        s
    }
}

/// The port number that `s` writes: an optional `+`, then one or more ASCII
/// digits whose value fits in 16 bits.
pub open spec fn port_number(s: Seq<char>) -> Option<u16> {
    let d = unsigned_part(s);
    if d.len() > 0 && all_digits(d) && digits_value(d) <= 65535 {
        Some(digits_value(d) as u16)
    } else {
        None
    }
}

/// Reads a port number.
pub fn parse_port(s: &str) -> (r: Option<u16>)
    ensures
        r == port_number(s@),
{
    let n = s.unicode_len();
    let mut i: usize = 0;
    if n > 0 && s.get_char(0) == '+' {
        i = 1;
    }
    let start = i;
    let ghost d = s@.subrange(start as int, n as int);
    proof {
        if start == 1 {
            assert(s@.drop_first() =~= d);
        } else {
            assert(s@ =~= d);
        }
    }
    if i >= n {
        return None;
    }
    let mut acc: u32 = 0;
    while i < n
        invariant
            n == s@.len(),
            start <= i <= n,
            d == s@.subrange(start as int, n as int),
            d == unsigned_part(s@),
            forall|b: int| start <= b < i ==> is_digit(#[trigger] s@[b]),
            acc as nat == if digits_value(s@.subrange(start as int, i as int)) >= 65536 {
                65536
            } else {
                digits_value(s@.subrange(start as int, i as int))
            },
        decreases n - i,
    {
        let c = s.get_char(i);
        if !('0' <= c && c <= '9') {
            proof {
                assert(d[i - start] == c);
                assert(!is_digit(d[i - start]));
                assert(!all_digits(d));
            }
            return None;
        }
        let v = (c as u32) - ('0' as u32);
        proof {
            let pre = s@.subrange(start as int, i as int);
            assert(s@.subrange(start as int, i + 1).drop_last() =~= pre);
            assert(s@.subrange(start as int, i + 1).last() == c);
        }
        if acc >= 65536 {
            acc = 65536;
        } else {
            let t = acc * 10 + v;
            acc = if t >= 65536 {
                65536
            } else {
                t
            };
        }
        i = i + 1;
    }
    proof {
        assert(s@.subrange(start as int, n as int) == d);
        assert forall|b: int| 0 <= b < d.len() implies is_digit(#[trigger] d[b]) by {
            assert(d[b] == s@[start + b]);
        }
        assert(all_digits(d));
    }
    if acc >= 65536 {
        None
    } else {
        Some(acc as u16)
    }
}

/// The port that one line of the scanner's report shows open, if any: a
/// line that mentions `/tcp` and `open` starts with the port number.
pub open spec fn open_port_of_line(line: Seq<char>) -> Option<u16> {
    if has_infix(line, "/tcp"@) && has_infix(line, "open"@) {
        port_number(trimmed(split_at_char(line, '/')[0]))
    } else {
        None
    }
}

/// The open ports that `lines` show, in order.
pub open spec fn open_ports_of_lines(lines: Seq<Seq<char>>) -> Seq<u16>
    decreases lines.len(),
{
    if lines.len() == 0 {
        Seq::empty()
    } else {
        let rest = open_ports_of_lines(lines.drop_last());
        match open_port_of_line(lines.last()) {
            Some(p) => rest.push(p),
            None => rest,
        }
    }
}

/// The open ports listed in the scanner's textual report.
pub fn parse_open_ports(output: &str) -> (r: Vec<u16>)
    ensures
        r@ == open_ports_of_lines(split_at_char(output@, '\n')),
{
    let lines = split_text(output, '\n');
    let ghost views = lines@.map_values(|x: String| x@);
    let mut ports: Vec<u16> = Vec::new();
    let mut i: usize = 0;
    while i < lines.len()
        invariant
            views == lines@.map_values(|x: String| x@),
            i <= lines@.len(),
            ports@ == open_ports_of_lines(views.subrange(0, i as int)),
        decreases lines@.len() - i,
    {
        let line = lines[i].as_str();
        proof {
            assert(views.subrange(0, i + 1).drop_last() =~= views.subrange(0, i as int));
            assert(views.subrange(0, i + 1).last() == line@);
        }
        if contains_text(line, "/tcp") && contains_text(line, "open") {
            let pieces = split_text(line, '/');
            proof {
                crate::text::lemma_split_nonempty(line@, '/');
                assert(pieces@.map_values(|x: String| x@)[0] == pieces@[0]@);
            }
            let head = trim_text(pieces[0].as_str());
            if let Some(port) = parse_port(head.as_str()) {
                ports.push(port);
            }
        }
        i = i + 1;
    }
    proof {
        assert(views.subrange(0, lines@.len() as int) =~= views);
    }
    ports
}

/// The text bound to `key`, when it is bound to a string.
pub open spec fn text_param(p: Keyed<JsonValue>, key: Seq<char>) -> Option<Seq<char>> {
    match p.at(key) {
        Some(JsonValue::Str(t)) => Some(t@),
        _ => None,
    }
}

fn text_value<'a>(params: &'a Keyed<JsonValue>, key: &str) -> (r: Option<&'a str>)
    ensures
        match r {
            Some(t) => text_param(*params, key@) == Some(t@),
            None => text_param(*params, key@) is None,
        },
{
    match params.get(key) {
        Some(v) => v.as_str(),
        None => None,
    }
}

/// What one scan runs with.
#[derive(Debug)]
pub struct ScanSettings {
    pub target: String,
    pub ports: String,
    pub scan_type: String,
}

/// Reads the settings of a scan: the target is required, the port range
/// defaults to `1-1000` and the scan type to `tcp`.
pub fn scan_settings(params: &Keyed<JsonValue>) -> (r: Result<ScanSettings, SecVError>)
    ensures
        r is Ok <==> text_param(*params, "target"@) is Some,
        r matches Ok(s) ==> {
            &&& s.target@ == text_param(*params, "target"@)->0
            &&& s.ports@ == match text_param(*params, "ports"@) {
                Some(t) => t,
                None => "1-1000"@,
            }
            &&& s.scan_type@ == match text_param(*params, "scan_type"@) {
                Some(t) => t,
                None => "tcp"@,
            }
        },
        r matches Err(e) ==> e matches SecVError::ValidationFailed(m) && m@
            == "Target not provided"@,
{
    let target = match text_value(params, "target") {
        Some(t) => t,
        None => {
            return Err(SecVError::ValidationFailed(String::from_str("Target not provided")));
        },
    };
    let ports = match text_value(params, "ports") {
        Some(t) => t,
        None => "1-1000",
    };
    let scan_type = match text_value(params, "scan_type") {
        Some(t) => t,
        None => "tcp",
    };
    Ok(
        ScanSettings {
            target: String::from_str(target),
            ports: String::from_str(ports),
            scan_type: String::from_str(scan_type),
        },
    )
}

/// The option that selects the kind of scan.
pub open spec fn scan_flag(scan_type: Seq<char>) -> Seq<char> {
    if scan_type == "syn"@ {
        "-sS"@
    } else if scan_type == "udp"@ {
        "-sU"@
    } else {
        "-sT"@
    }
}

/// The arguments the scanner binary is run with.
pub open spec fn scan_arguments(s: ScanSettings) -> Seq<Seq<char>> {
    seq![
        "-p"@,
        s.ports@,
        scan_flag(s.scan_type@),
        "--open"@,
        "-T4"@,
        "--host-timeout"@,
        "300s"@,
        s.target@,
    ]
}

/// Builds the argument list for the scanner binary.
pub fn nmap_arguments(settings: &ScanSettings) -> (r: Vec<String>)
    ensures
        r@.map_values(|x: String| x@) == scan_arguments(*settings),
{
    let flag = if crate::keyed::str_eq(settings.scan_type.as_str(), "syn") {
        "-sS"
    } else if crate::keyed::str_eq(settings.scan_type.as_str(), "udp") {
        "-sU"
    } else {
        "-sT"
    };
    let r = vec![
        String::from_str("-p"),
        settings.ports.clone(),
        String::from_str(flag),
        String::from_str("--open"),
        String::from_str("-T4"),
        String::from_str("--host-timeout"),
        String::from_str("300s"),
        settings.target.clone(),
    ];
    assert(r@.map_values(|x: String| x@) =~= scan_arguments(*settings));
    r
}

/// `v` is a number written as `t`.
pub open spec fn number_text(v: JsonValue, t: Seq<char>) -> bool {
    match v {
        JsonValue::Number(n) => n@ == t,
        _ => false,
    }
}

/// `v` is an array of the numbers `ports`, in order.
pub open spec fn port_list(v: JsonValue, ports: Seq<u16>) -> bool {
    match v {
        JsonValue::Array(a) => a@.len() == ports.len() && forall|i: int|
            0 <= i < a@.len() ==> number_text(#[trigger] a@[i], decimal_text(ports[i] as nat)),
        _ => false,
    }
}

/// The decimal text of a port.
fn port_value(p: u16) -> (r: JsonValue)
    ensures
        r matches JsonValue::Number(t) && t@ == decimal_text(p as nat),
{
    JsonValue::Number(decimal(p as u64))
}

/// Seconds with three decimals, from milliseconds.
pub open spec fn seconds_text(ms: nat) -> Seq<char> {
    let frac = ms % 1000;
    decimal_text(ms / 1000) + "."@ + decimal_text(frac / 100) + decimal_text((frac / 10) % 10)
        + decimal_text(frac % 10)
}

fn seconds(ms: u64) -> (r: String)
    ensures
        r@ == seconds_text(ms as nat),
{
    let frac = ms % 1000;
    let mut s = decimal(ms / 1000);
    s.append(".");
    s.append(decimal(frac / 100).as_str());
    s.append(decimal((frac / 10) % 10).as_str());
    s.append(decimal(frac % 10).as_str());
    s
}

fn member(name: &str, value: JsonValue) -> (r: (String, JsonValue))
    ensures
        r.0@ == name@,
        r.1 == value,
{
    (String::from_str(name), value)
}

/// `r` reports a scan with `settings` that ran for `elapsed_ms`, found
/// `ports` open and printed `raw_output`: a success whose payload lists
/// target, scan type, port range, open ports, their count, duration in
/// seconds, the raw report and the time of the report, with a warning when
/// no port is open.
pub open spec fn scan_report(
    r: ModuleResult,
    settings: ScanSettings,
    ports: Seq<u16>,
    elapsed_ms: u64,
    raw_output: String,
) -> bool {
    &&& r.success
    &&& r.errors@.len() == 0
    &&& r.artifacts@.len() == 0
    &&& r.execution_time_ms == elapsed_ms
    &&& ports.len() == 0 ==> r.warnings@.len() == 1 && r.warnings@[0]@ == "No open ports found"@
    &&& ports.len() > 0 ==> r.warnings@.len() == 0
    &&& match r.data {
        JsonValue::Object(m) => {
            &&& m@.len() == 8
            &&& m@[0].0@ == "target"@ && m@[0].1 == JsonValue::Str(settings.target)
            &&& m@[1].0@ == "scan_type"@ && m@[1].1 == JsonValue::Str(settings.scan_type)
            &&& m@[2].0@ == "port_range"@ && m@[2].1 == JsonValue::Str(settings.ports)
            &&& m@[3].0@ == "open_ports"@ && port_list(m@[3].1, ports)
            &&& m@[4].0@ == "total_open_ports"@ && number_text(m@[4].1, decimal_text(ports.len()))
            &&& m@[5].0@ == "scan_duration"@ && number_text(
                m@[5].1,
                seconds_text(elapsed_ms as nat),
            )
            &&& m@[6].0@ == "raw_output"@ && m@[6].1 == JsonValue::Str(raw_output)
            &&& m@[7].0@ == "timestamp"@ && m@[7].1 is Str
        },
        _ => false,
    }
}

/// The result of a scan that ran, with the ports it found open; the
/// payload lists target, scan type, port range, open ports, their count,
/// duration in seconds, the raw report and the time of the report.
pub fn build_scan_result(
    settings: &ScanSettings,
    open_ports: &Vec<u16>,
    elapsed_ms: u64,
    raw_output: String,
    timestamp: String,
) -> (r: ModuleResult)
    ensures
        scan_report(r, *settings, open_ports@, elapsed_ms, raw_output),
        r.data matches JsonValue::Object(m) && m@.len() == 8 && m@[7].1 == JsonValue::Str(
            timestamp,
        ),
{
    let mut items: Vec<JsonValue> = Vec::new();
    let mut i: usize = 0;
    while i < open_ports.len()
        invariant
            i <= open_ports@.len(),
            items@.len() == i,
            forall|j: int|
                0 <= j < i ==> number_text(
                    #[trigger] items@[j],
                    decimal_text(open_ports@[j] as nat),
                ),
        decreases open_ports@.len() - i,
    {
        items.push(port_value(open_ports[i]));
        i = i + 1;
    }
    let count = open_ports.len();
    let warnings = if count == 0 {
        vec![String::from_str("No open ports found")]
    } else {
        Vec::new()
    };
    let data = JsonValue::object(
        vec![
            member("target", JsonValue::Str(settings.target.clone())),
            member("scan_type", JsonValue::Str(settings.scan_type.clone())),
            member("port_range", JsonValue::Str(settings.ports.clone())),
            member("open_ports", JsonValue::array(items)),
            member("total_open_ports", JsonValue::Number(decimal(count as u64))),
            member("scan_duration", JsonValue::Number(seconds(elapsed_ms))),
            member("raw_output", JsonValue::Str(raw_output)),
            member("timestamp", JsonValue::Str(timestamp)),
        ],
    );
    ModuleResult {
        success: true,
        data,
        errors: Vec::new(),
        warnings,
        execution_time_ms: elapsed_ms,
        artifacts: Vec::new(),
    }
}

/// Decides the scanner's dependency check from whether its binary answered a
/// version query.
pub fn scanner_dependency_status(binary_answered: bool) -> (r: Result<(), SecVError>)
    ensures
        r is Ok <==> binary_answered,
        r matches Err(e) ==> e matches SecVError::DependencyMissing(d) && d@ == "nmap"@,
{
    if binary_answered {
        Ok(())
    } else {
        Err(SecVError::DependencyMissing(String::from_str("nmap")))
    }
}

/// Text of the failure of a scan whose binary reported an error.
pub open spec fn scan_failure_text(stderr: Seq<char>) -> Seq<char> {
    "Nmap scan failed: "@ + stderr
}

/// The result of a scan whose binary exited with an error.
pub fn failed_scan_result(stderr: &str, elapsed_ms: u64) -> (r: ModuleResult)
    ensures
        !r.success,
        r.errors@.len() == 1,
        r.errors@[0]@ == scan_failure_text(stderr@),
        r.warnings@.len() == 0,
        r.artifacts@.len() == 0,
        r.execution_time_ms == elapsed_ms,
        r.data matches JsonValue::Object(m) && m@.len() == 0,
{
    ModuleResult {
        success: false,
        data: JsonValue::object(Vec::new()),
        errors: vec![String::from_str("Nmap scan failed: ").concat(stderr)],
        warnings: Vec::new(),
        execution_time_ms: elapsed_ms,
        artifacts: Vec::new(),
    }
}

impl NetworkScannerModule {
    /// The result of a finished scan: a failure carrying the error text when
    /// the binary exited with an error, otherwise the open ports read from
    /// its report.
    pub fn interpret_scan(
        &self,
        settings: &ScanSettings,
        exited_ok: bool,
        stdout: String,
        stderr: &str,
        elapsed_ms: u64,
    ) -> (r: ModuleResult)
        ensures
            exited_ok ==> scan_report(
                r,
                *settings,
                open_ports_of_lines(split_at_char(stdout@, '\n')),
                elapsed_ms,
                stdout,
            ),
            !exited_ok ==> {
                &&& !r.success
                &&& r.errors@.len() == 1
                &&& r.errors@[0]@ == scan_failure_text(stderr@)
                &&& r.warnings@.len() == 0
                &&& r.artifacts@.len() == 0
                &&& r.execution_time_ms == elapsed_ms
                &&& r.data matches JsonValue::Object(m) && m@.len() == 0
            },
    {
        if !exited_ok {
            return failed_scan_result(stderr, elapsed_ms);
        }
        let ports = parse_open_ports(stdout.as_str());
        build_scan_result(settings, &ports, elapsed_ms, stdout, current_timestamp())
    }
}

} // verus!
