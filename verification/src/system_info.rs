//! The system information report: the CPU name read from `/proc/cpuinfo`, the
//! GPU driver read from the DRM devices, how both are labelled, and what the
//! header of the app shows of a report.

use crate::requests::JsonField;
use crate::text::{
    chars_of, decimal, find_char, find_char_from, first_line_with_prefix, first_with_prefix,
    has_prefix, lemma_find_char_at, lemma_find_char_bound, lines, push_decimal, push_str,
    range_has_prefix, remove_all, second_piece, string_from, trim, trim_range,
};
use vstd::prelude::*;

verus! {

/// The CPU model name in the text of `/proc/cpuinfo`: the text between the
/// first and second colon of the first line that starts with `model name`,
/// without surrounding white space. There is none when no line starts so, or
/// when that line has no colon.
pub open spec fn model_name_of(cpuinfo: Seq<char>) -> Option<Seq<char>> {
    match first_with_prefix(lines(cpuinfo), "model name"@) {
        Some(line) => match second_piece(line, ':') {
            Some(piece) => Some(trim(piece)),
            None => None,
        },
        None => None,
    }
}

/// The CPU model name in the text of `/proc/cpuinfo`.
pub fn cpu_model_name(cpuinfo: &str) -> (res: Option<String>)
    ensures
        match model_name_of(cpuinfo@) {
            Some(n) => res matches Some(r) && r@ == n,
            None => res is None,
        },
{
    let s = chars_of(cpuinfo);
    let prefix = chars_of("model name");
    match first_line_with_prefix(s.as_slice(), prefix.as_slice()) {
        Some((from, to)) => {
            let ghost line = s@.subrange(from as int, to as int);
            let colon = find_char_from(s.as_slice(), ':', from);
            proof {
                lemma_find_in_range(s@, ':', from as int, to as int);
            }
            if colon >= to {
                return None;
            }
            let next = find_char_from(s.as_slice(), ':', colon + 1);
            let end = if next < to {
                next
            } else {
                to
            };
            proof {
                let rest = line.skip(colon - from + 1);
                assert(rest =~= s@.subrange(colon + 1, to as int));
                lemma_find_in_range(s@, ':', colon + 1, to as int);
                assert(rest.take(find_char(rest, ':') as int) =~= s@.subrange(
                    colon + 1,
                    end as int,
                ));
            }
            let (a, b) = trim_range(s.as_slice(), colon + 1, end);
            Some(string_from(&s.as_slice()[a..b]))
        },
        None => None,
    }
}

/// Where `c` first occurs in `s[from..to]`, relative to `from`, given where it
/// first occurs in `s[from..]`.
proof fn lemma_find_in_range(s: Seq<char>, c: char, from: int, to: int)
    requires
        0 <= from <= to <= s.len(),
    ensures
        ({
            let f = from + find_char(s.skip(from), c);
            let g = find_char(s.subrange(from, to), c);
            if f < to {
                g == f - from
            } else {
                g == to - from
            }
        }),
{
    let t = s.skip(from);
    let r = s.subrange(from, to);
    lemma_find_char_bound(t, c);
    let f = find_char(t, c);
    if from + f < to {
        assert(r[f as int] == t[f as int]);
        assert forall|k: int| 0 <= k < f implies r[k] != c by {
            assert(r[k] == t[k]);
        }
        lemma_find_char_at(r, c, f as int);
    } else {
        assert forall|k: int| 0 <= k < to - from implies r[k] != c by {
            assert(r[k] == t[k]);
        }
        lemma_find_char_at(r, c, to - from);
    }
}

/// The CPU name shown: the model name from `/proc/cpuinfo` when its text was
/// read and names one, and otherwise the architecture followed by the
/// operating system in brackets.
pub open spec fn cpu_name_text(cpuinfo: Option<Seq<char>>, arch: Seq<char>, os: Seq<char>) -> Seq<
    char,
> {
    let fallback = arch + " ("@ + os + ")"@;
    match cpuinfo {
        Some(text) => match model_name_of(text) {
            Some(n) => n,
            None => fallback,
        },
        None => fallback,
    }
}

/// The CPU name from the text of `/proc/cpuinfo`, if it could be read, with
/// `arch` and `os` as the fallback.
pub fn cpu_name(cpuinfo: Option<&str>, arch: &str, os: &str) -> (res: String)
    ensures
        res@ == cpu_name_text(
            match cpuinfo {
                Some(t) => Some(t@),
                None => None,
            },
            arch@,
            os@,
        ),
{
    if let Some(text) = cpuinfo {
        if let Some(name) = cpu_model_name(text) {
            return name;
        }
    }
    let mut v: Vec<char> = Vec::new();
    push_str(&mut v, arch);
    push_str(&mut v, " (");
    push_str(&mut v, os);
    push_str(&mut v, ")");
    string_from(v.as_slice())
}

/// The CPU line of the report: the name followed by the core count.
pub open spec fn cpu_summary_text(name: Seq<char>, cores: nat) -> Seq<char> {
    name + " ("@ + decimal(cores) + " cores)"@
}

/// The CPU line of the report for `name` and `cores` cores.
pub fn cpu_summary(name: &str, cores: usize) -> (res: String)
    ensures
        res@ == cpu_summary_text(name@, cores as nat),
{
    let mut v: Vec<char> = Vec::new();
    push_str(&mut v, name);
    push_str(&mut v, " (");
    push_decimal(&mut v, cores as u64);
    push_str(&mut v, " cores)");
    string_from(v.as_slice())
}

/// A DRM device name that stands for a graphics card: it starts with `card`
/// and holds no `-` (which connector names such as `card0-HDMI-A-1` do).
pub open spec fn is_card_name(name: Seq<char>) -> bool {
    has_prefix(name, "card"@) && !name.contains('-')
}

/// Whether the DRM device `name` stands for a graphics card.
pub fn is_gpu_card_name(name: &str) -> (res: bool)
    ensures
        res == is_card_name(name@),
{
    let s = chars_of(name);
    let prefix = chars_of("card");
    if !range_has_prefix(s.as_slice(), 0, s.len(), prefix.as_slice()) {
        assert(s@.subrange(0, s@.len() as int) =~= s@);
        return false;
    }
    assert(s@.subrange(0, s@.len() as int) =~= s@);
    let dash = find_char_from(s.as_slice(), '-', 0);
    if dash < s.len() {
        assert(s@[dash as int] == '-');
        false
    } else {
        assert forall|k: int| 0 <= k < s@.len() implies s@[k] != '-' by {}
        true
    }
}

/// The position of the first DRM device in `names` that stands for a
/// graphics card, `None` for a device whose name could not be read.
pub fn select_gpu_card(names: &Vec<Option<String>>) -> (res: Option<usize>)
    ensures
        match res {
            Some(i) => {
                &&& i < names@.len()
                &&& names@[i as int] matches Some(n) && is_card_name(n@)
                &&& forall|k: int|
                    0 <= k < i ==> !(#[trigger] names@[k] matches Some(m) && is_card_name(m@))
            },
            None => forall|k: int|
                0 <= k < names@.len() ==> !(#[trigger] names@[k] matches Some(m) && is_card_name(
                    m@,
                )),
        },
{
    let mut i: usize = 0;
    while i < names.len()
        invariant
            i <= names@.len(),
            forall|k: int|
                0 <= k < i ==> !(#[trigger] names@[k] matches Some(m) && is_card_name(m@)),
        decreases names@.len() - i,
    {
        if let Some(name) = &names[i] {
            if is_gpu_card_name(name.as_str()) {
                return Some(i);
            }
        }
        i = i + 1;
    }
    None
}

/// The driver named in the text of a device's `uevent` file: the first line
/// that starts with `DRIVER=`, with every `DRIVER=` in it removed.
pub open spec fn driver_of(uevent: Seq<char>) -> Option<Seq<char>> {
    match first_with_prefix(lines(uevent), "DRIVER="@) {
        Some(line) => Some(remove_all(line, "DRIVER="@)),
        None => None,
    }
}

/// The driver named in the text of a device's `uevent` file.
pub fn driver_from_uevent(uevent: &str) -> (res: Option<String>)
    ensures
        match driver_of(uevent@) {
            Some(d) => res matches Some(r) && r@ == d,
            None => res is None,
        },
{
    let s = chars_of(uevent);
    let key = chars_of("DRIVER=");
    proof {
        reveal_strlit("DRIVER=");
    }
    match first_line_with_prefix(s.as_slice(), key.as_slice()) {
        Some((from, to)) => {
            let out = remove_all_in(s.as_slice(), from, to, key.as_slice());
            Some(string_from(out.as_slice()))
        },
        None => None,
    }
}

/// `s[from..to]` with every occurrence of the non-empty `pat` removed.
fn remove_all_in(s: &[char], from: usize, to: usize, pat: &[char]) -> (res: Vec<char>)
    requires
        from <= to <= s.len(),
        pat.len() > 0,
    ensures
        res@ == remove_all(s@.subrange(from as int, to as int), pat@),
{
    let mut out: Vec<char> = Vec::new();
    let mut i = from;
    assert(s@.subrange(from as int, to as int).skip(0) =~= s@.subrange(from as int, to as int));
    while i < to
        invariant
            from <= i <= to <= s.len(),
            pat.len() > 0,
            remove_all(s@.subrange(from as int, to as int), pat@) == out@ + remove_all(
                s@.subrange(i as int, to as int),
                pat@,
            ),
        decreases to - i,
    {
        let ghost r = s@.subrange(i as int, to as int);
        if range_has_prefix(s, i, to, pat) {
            assert(r.skip(pat@.len() as int) =~= s@.subrange(i + pat@.len(), to as int));
            i = i + pat.len();
        } else {
            assert(r.drop_first() =~= s@.subrange(i + 1, to as int));
            assert(r[0] == s@[i as int]);
            out.push(s[i]);
            i = i + 1;
        }
    }
    assert(s@.subrange(i as int, to as int) =~= Seq::<char>::empty());
    assert(out@ + Seq::<char>::empty() =~= out@);
    out
}

/// The GPU line of the report: without a graphics card, the generic WGPU
/// label; with one, its driver from `uevent` (or, when that names none or
/// could not be read, the card's device name) marked as used through WGPU.
pub open spec fn gpu_label_text(card: Option<Seq<char>>, uevent: Option<Seq<char>>) -> Seq<char> {
    match card {
        None => "WGPU (Cross-platform GPU via Burn)"@,
        Some(name) => {
            let driver = match uevent {
                Some(u) => match driver_of(u) {
                    Some(d) => d,
                    None => name,
                },
                None => name,
            };
            driver + " (via WGPU/Burn)"@
        },
    }
}

/// The GPU line of the report for the graphics card named `card`, if any,
/// whose `uevent` file holds `uevent`, if it could be read.
pub fn gpu_label(card: Option<&str>, uevent: Option<&str>) -> (res: String)
    ensures
        res@ == gpu_label_text(
            match card {
                Some(c) => Some(c@),
                None => None,
            },
            match uevent {
                Some(u) => Some(u@),
                None => None,
            },
        ),
{
    match card {
        None => String::from_str("WGPU (Cross-platform GPU via Burn)"),
        Some(name) => {
            let mut v: Vec<char> = Vec::new();
            let driver = match uevent {
                Some(u) => driver_from_uevent(u),
                None => None,
            };
            match driver {
                Some(d) => push_str(&mut v, d.as_str()),
                None => push_str(&mut v, name),
            }
            push_str(&mut v, " (via WGPU/Burn)");
            string_from(v.as_slice())
        },
    }
}

/// The report served to the app's header.
#[derive(Debug, Clone)]
pub struct SystemReport {
    /// CPU name and core count.
    pub cpu: String,
    /// GPU driver, or the generic WGPU label.
    pub gpu: String,
}

/// The report from what was read of the machine: the text of
/// `/proc/cpuinfo`, the architecture and operating system, the core count,
/// and the graphics card found with its `uevent` text.
pub fn system_report(
    cpuinfo: Option<&str>,
    arch: &str,
    os: &str,
    cores: usize,
    card: Option<&str>,
    uevent: Option<&str>,
) -> (res: SystemReport)
    ensures
        res.cpu@ == cpu_summary_text(
            cpu_name_text(
                match cpuinfo {
                    Some(t) => Some(t@),
                    None => None,
                },
                arch@,
                os@,
            ),
            cores as nat,
        ),
        res.gpu@ == gpu_label_text(
            match card {
                Some(c) => Some(c@),
                None => None,
            },
            match uevent {
                Some(u) => Some(u@),
                None => None,
            },
        ),
{
    let name = cpu_name(cpuinfo, arch, os);
    SystemReport { cpu: cpu_summary(name.as_str(), cores), gpu: gpu_label(card, uevent) }
}

/// The header's line on the software stack the app runs on.
pub open spec fn stack_text() -> Seq<char> {
    "Stack: Dioxus, Burn, Ractor, Axum, Tokio"@
}

/// The header's lines for a report whose `cpu` and `gpu` members hold the
/// strings `cpu` and `gpu` (`None` for a member that is missing or not a
/// string, shown as `N/A`): a CPU line, a GPU line and the stack line.
pub open spec fn report_lines_text(cpu: Option<Seq<char>>, gpu: Option<Seq<char>>) -> Seq<
    Seq<char>,
> {
    seq![
        "CPU: "@ + match cpu {
            Some(t) => t,
            None => "N/A"@,
        },
        "GPU: "@ + match gpu {
            Some(t) => t,
            None => "N/A"@,
        },
        stack_text(),
    ]
}

/// What the app's header shows of a report: with the report's `cpu` and
/// `gpu` fields, a CPU and a GPU line, `N/A` standing for a field that is not
/// a string, and the stack line; without a report (still loading, or not
/// JSON), a loading line.
pub open spec fn header_lines_text(report: Option<(JsonField, JsonField)>) -> Seq<Seq<char>> {
    match report {
        Some((cpu, gpu)) => report_lines_text(cpu.text(), gpu.text()),
        None => seq!["Loading system info"@],
    }
}

/// The lines the app's header shows for the `cpu` and `gpu` fields of the
/// report, or for no report: CPU, GPU and stack, or the loading line.
pub fn header_lines(report: &Option<(JsonField, JsonField)>) -> (res: Vec<String>)
    ensures
        res@.map_values(|s: String| s@) == header_lines_text(*report),
{
    let mut out: Vec<String> = Vec::new();
    match report {
        Some((cpu, gpu)) => {
            out.push(labelled("CPU: ", cpu));
            out.push(labelled("GPU: ", gpu));
            out.push(String::from_str("Stack: Dioxus, Burn, Ractor, Axum, Tokio"));
        },
        None => {
            out.push(String::from_str("Loading system info"));
        },
    }
    assert(out@.map_values(|s: String| s@) =~= header_lines_text(*report));
    out
}

/// `label` followed by the field's string, or by `N/A`.
fn labelled(label: &str, field: &JsonField) -> (res: String)
    ensures
        res@ == label@ + match field.text() {
            Some(t) => t,
            None => "N/A"@,
        },
{
    let mut v: Vec<char> = Vec::new();
    push_str(&mut v, label);
    match field {
        JsonField::Text(t) => push_str(&mut v, t.as_str()),
        _ => push_str(&mut v, "N/A"),
    }
    string_from(v.as_slice())
}

// ---------------------------------------------------------------------------
// The report as the header receives it
// ---------------------------------------------------------------------------

/// Whether `text` is one JSON value, as `serde_json::from_str` accepts it.
pub uninterp spec fn json_parses(text: Seq<char>) -> bool;

/// The string that the member `key` of the JSON value in `text` holds, as
/// `serde_json::Value::get` finds it; `None` when there is no such member or
/// it is not a string.
pub uninterp spec fn json_str_member(text: Seq<char>, key: Seq<char>) -> Option<Seq<char>>;

/// `serde_json::from_str::<serde_json::Value>` on `text`, then
/// `serde_json::Value::get` of the member `key`, read as the endpoints read
/// it: `None` exactly when `text` does not parse; otherwise the member,
/// missing, not a string, or the string it holds.
#[verifier::external_body]
fn json_member_in(text: &str, key: &str) -> (res: Option<JsonField>)
    ensures
        res is Some <==> json_parses(text@),
        res matches Some(f) ==> f.text() == json_str_member(text@, key@),
{
    match serde_json::from_str::<serde_json::Value>(text) {
        Err(_) => None,
        Ok(value) => Some(
            match value.get(key) {
                None => JsonField::Missing,
                Some(serde_json::Value::String(s)) => JsonField::Text(s.clone()),
                Some(_) => JsonField::Other,
            },
        ),
    }
}

/// The `cpu` and `gpu` members of the report text `text`, `None` when it is
/// not JSON.
pub fn report_fields(text: &str) -> (res: Option<(JsonField, JsonField)>)
    ensures
        res is Some <==> json_parses(text@),
        res matches Some((cpu, gpu)) ==> cpu.text() == json_str_member(text@, "cpu"@)
            && gpu.text() == json_str_member(text@, "gpu"@),
{
    let cpu = json_member_in(text, "cpu");
    let gpu = json_member_in(text, "gpu");
    match (cpu, gpu) {
        (Some(cpu), Some(gpu)) => Some((cpu, gpu)),
        _ => None,
    }
}

/// The lines the header shows for the report text `text`, `None` while the
/// report is still on its way: the loading line while it is, or when the
/// text is not JSON; otherwise the CPU, GPU and stack lines of the report's
/// `cpu` and `gpu` members.
pub fn header_for_report(text: Option<&str>) -> (res: Vec<String>)
    ensures
        res@.map_values(|s: String| s@) == match text {
            Some(t) => if json_parses(t@) {
                report_lines_text(json_str_member(t@, "cpu"@), json_str_member(t@, "gpu"@))
            } else {
                seq!["Loading system info"@]
            },
            None => seq!["Loading system info"@],
        },
{
    let fields = match text {
        Some(t) => report_fields(t),
        None => None,
    };
    header_lines(&fields)
}

} // verus!
