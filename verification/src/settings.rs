//! Screenshot capture settings: clamped numeric knobs, a trimmed optional
//! storage directory, and the resolution of storage paths against the
//! managed data directory.

use vstd::prelude::*;

use crate::time_entries::{is_trim_space, label_blank};

verus! {

/// The capture knobs: encoder quality, width cap, byte budget in KiB, and
/// an optional custom storage directory.
#[derive(Debug)]
pub struct ScreenshotSettings {
    pub quality: u8,
    pub max_width: u32,
    pub max_file_kb: u32,
    pub storage_dir: Option<String>,
}

impl Default for ScreenshotSettings {
    /// The settings used until the user configures anything.
    fn default() -> (r: ScreenshotSettings)
        ensures
            r.quality == 40,
            r.max_width == 960,
            r.max_file_kb == 50,
            r.storage_dir is None,
    {
        ScreenshotSettings { quality: 40, max_width: 960, max_file_kb: 50, storage_dir: None }
    }
}

/// A value clamped into `[lo, hi]`.
pub open spec fn clamped(v: int, lo: int, hi: int) -> int {
    if v < lo {
        lo
    } else if v > hi {
        hi
    } else {
        v
    }
}

/// `t` is `s` with leading and trailing whitespace removed.
pub open spec fn is_trimmed_of(t: Seq<char>, s: Seq<char>) -> bool {
    exists|a: int, b: int|
        {
            &&& 0 <= a <= b <= s.len()
            &&& t == #[trigger] s.subrange(a, b)
            &&& (forall|i: int| 0 <= i < a ==> is_trim_space(#[trigger] s[i]))
            &&& (forall|i: int| b <= i < s.len() ==> is_trim_space(#[trigger] s[i]))
            &&& (a < b ==> !is_trim_space(s[a]) && !is_trim_space(s[b - 1]))
            &&& (a == b ==> label_blank(s))
        }
}

/// Whether the character at `i` is trimmable whitespace.
fn ws_at(s: &str, i: usize) -> (r: bool)
    requires
        i < s@.len(),
    ensures
        r == is_trim_space(s@[i as int]),
{
    let c = s.get_char(i);
    c == ' ' || c == '\t' || c == '\n' || c == '\r'
}

/// Removes leading and trailing whitespace.
pub fn trim_text(s: &str) -> (r: String)
    ensures
        is_trimmed_of(r@, s@),
        r@.len() == 0 <==> label_blank(s@),
{
    let n = s.unicode_len();
    let mut a: usize = 0;
    while a < n && ws_at(s, a)
        invariant
            a <= n,
            n == s@.len(),
            forall|i: int| 0 <= i < a ==> is_trim_space(#[trigger] s@[i]),
        decreases n - a,
    {
        a += 1;
    }
    if a == n {
        proof {
            assert(label_blank(s@));
            assert(Seq::<char>::empty() =~= s@.subrange(n as int, n as int));
        }
        return String::new();
    }
    proof {
        assert(a < n && !is_trim_space(s@[a as int]));
    }
    let mut b: usize = n;
    while b > a + 1 && ws_at(s, b - 1)
        invariant
            a < b <= n,
            n == s@.len(),
            !is_trim_space(s@[a as int]),
            forall|i: int| 0 <= i < a ==> is_trim_space(#[trigger] s@[i]),
            forall|i: int| b <= i < n ==> is_trim_space(#[trigger] s@[i]),
        decreases b,
    {
        b -= 1;
    }
    proof {
        assert(!is_trim_space(s@[b - 1]));
    }
    let out = s.substring_char(a, b).to_owned();
    proof {
        assert(out@ == s@.subrange(a as int, b as int));
        assert(out@.len() > 0);
        assert(!label_blank(s@));
    }
    out
}

impl ScreenshotSettings {
    /// The settings with every knob clamped to its documented range
    /// (`quality` 1 to 100, `max_width` 640 to 7680, `max_file_kb` 20 to
    /// 2048) and the storage directory trimmed, a blank one dropped.
    pub fn normalized(self) -> (r: ScreenshotSettings)
        ensures
            r.quality as int == clamped(self.quality as int, 1, 100),
            r.max_width as int == clamped(self.max_width as int, 640, 7680),
            r.max_file_kb as int == clamped(self.max_file_kb as int, 20, 2048),
            self.storage_dir is None ==> r.storage_dir is None,
            self.storage_dir matches Some(p) ==> {
                if label_blank(p@) {
                    r.storage_dir is None
                } else {
                    r.storage_dir matches Some(t) && is_trimmed_of(t@, p@) && t@.len() > 0
                }
            },
    {
        let quality = if self.quality < 1 {
            1
        } else if self.quality > 100 {
            100
        } else {
            self.quality
        };
        let max_width = if self.max_width < 640 {
            640
        } else if self.max_width > 7680 {
            7680
        } else {
            self.max_width
        };
        let max_file_kb = if self.max_file_kb < 20 {
            20
        } else if self.max_file_kb > 2048 {
            2048
        } else {
            self.max_file_kb
        };
        let storage_dir = match &self.storage_dir {
            None => None,
            Some(p) => {
                let t = trim_text(p.as_str());
                if t.as_str().unicode_len() == 0 {
                    None
                } else {
                    Some(t)
                }
            },
        };
        ScreenshotSettings { quality, max_width, max_file_kb, storage_dir }
    }
}

/// The root under which screenshots are stored: the trimmed configured
/// directory when one is set and not blank, else the `screenshots` folder
/// of the managed data directory.
pub fn resolve_screenshot_storage_dir(data_dir: &str, configured_storage_dir: Option<String>) -> (r:
    String)
    ensures
        (match configured_storage_dir {
            None => r@ == data_dir@ + "/screenshots"@,
            Some(p) => {
                if label_blank(p@) {
                    r@ == data_dir@ + "/screenshots"@
                } else {
                    is_trimmed_of(r@, p@) && r@.len() > 0
                }
            },
        }),
{
    match &configured_storage_dir {
        Some(p) => {
            let t = trim_text(p.as_str());
            if t.as_str().unicode_len() == 0 {
                crate::screenshot::get_screenshot_path(data_dir)
            } else {
                t
            }
        },
        None => crate::screenshot::get_screenshot_path(data_dir),
    }
}

/// A path the library treats as absolute: one starting with a slash (or
/// backslash), or one whose second character is a drive-letter colon.
pub open spec fn is_abs_path(s: Seq<char>) -> bool {
    s.len() > 0 && (s[0] == '/' || s[0] == '\\' || (s.len() >= 2 && s[1] == ':'))
}

/// A path segment that survives resolution: non-empty and not the `.`
/// segment.
pub open spec fn seg_keep(seg: Seq<char>) -> bool {
    seg.len() > 0 && seg != seq!['.']
}

/// The result of rooting the remaining relative path `rest` (with the
/// partial segment `cur` already read) under `base`: segments split on
/// `/`, empty and `.` segments dropped, the rest appended each behind one
/// slash.
pub open spec fn rooted_path(base: Seq<char>, rest: Seq<char>, cur: Seq<char>) -> Seq<char>
    decreases rest.len(),
{
    if rest.len() == 0 {
        if seg_keep(cur) {
            base + seq!['/'] + cur
        } else {
            base
        }
    } else if rest[0] == '/' {
        rooted_path(
            if seg_keep(cur) {
                base + seq!['/'] + cur
            } else {
                base
            },
            rest.subrange(1, rest.len() as int),
            Seq::empty(),
        )
    } else {
        rooted_path(base, rest.subrange(1, rest.len() as int), cur.push(rest[0]))
    }
}

/// Resolves a stored screenshot path: an absolute path is returned as it
/// stands, a relative one is rooted under the managed data directory with
/// empty and `.` segments dropped.
pub fn resolve_screenshot_file_path(data_dir: &str, stored_path: &str) -> (r: String)
    ensures
        is_abs_path(stored_path@) ==> r@ == stored_path@,
        !is_abs_path(stored_path@) ==> r@ == rooted_path(data_dir@, stored_path@, Seq::empty()),
{
    let n = stored_path.unicode_len();
    let absolute = if n == 0 {
        false
    } else {
        let c0 = stored_path.get_char(0);
        if c0 == '/' || c0 == '\\' {
            true
        } else if n >= 2 {
            stored_path.get_char(1) == ':'
        } else {
            false
        }
    };
    if absolute {
        return stored_path.to_owned();
    }
    let mut out = data_dir.to_owned();
    proof {
        assert(stored_path@.subrange(0, n as int) =~= stored_path@);
        assert(stored_path@.subrange(0, 0) =~= Seq::<char>::empty());
    }
    let mut seg_start: usize = 0;
    let mut i: usize = 0;
    while i < n
        invariant
            seg_start <= i <= n,
            n == stored_path@.len(),
            rooted_path(data_dir@, stored_path@, Seq::empty()) == rooted_path(
                out@,
                stored_path@.subrange(i as int, n as int),
                stored_path@.subrange(seg_start as int, i as int),
            ),
        decreases n - i,
    {
        let c = stored_path.get_char(i);
        if c == '/' {
            flush_segment(&mut out, stored_path, seg_start, i);
            proof {
                assert(stored_path@.subrange(i as int, n as int)[0] == '/');
                assert(stored_path@.subrange(i as int, n as int).subrange(
                    1,
                    (n - i) as int,
                ) =~= stored_path@.subrange(i as int + 1, n as int));
                assert(Seq::<char>::empty() =~= stored_path@.subrange(
                    i as int + 1,
                    i as int + 1,
                ));
            }
            seg_start = i + 1;
        } else {
            proof {
                assert(stored_path@.subrange(i as int, n as int)[0] == c && c != '/');
                assert(stored_path@.subrange(i as int, n as int).subrange(
                    1,
                    (n - i) as int,
                ) =~= stored_path@.subrange(i as int + 1, n as int));
                assert(stored_path@.subrange(seg_start as int, i as int).push(c)
                    =~= stored_path@.subrange(seg_start as int, i as int + 1));
            }
        }
        i += 1;
    }
    proof {
        assert(stored_path@.subrange(n as int, n as int) =~= Seq::<char>::empty());
    }
    flush_segment(&mut out, stored_path, seg_start, n);
    out
}

/// Appends one resolved segment of the stored path to the output, when
/// the segment is kept.
fn flush_segment(out: &mut String, stored_path: &str, seg_start: usize, seg_end: usize)
    requires
        seg_start <= seg_end <= stored_path@.len(),
    ensures
        final(out)@ == (if seg_keep(stored_path@.subrange(seg_start as int, seg_end as int)) {
            old(out)@ + seq!['/'] + stored_path@.subrange(seg_start as int, seg_end as int)
        } else {
            old(out)@
        }),
{
    let seg = stored_path.substring_char(seg_start, seg_end);
    let len = seg.unicode_len();
    let keep = if len == 0 {
        false
    } else if len == 1 {
        seg.get_char(0) != '.'
    } else {
        true
    };
    proof {
        let sv = stored_path@.subrange(seg_start as int, seg_end as int);
        if len == 1 && seg@[0] == '.' {
            assert(sv =~= seq!['.']);
        }
        if len == 1 && seg@[0] != '.' {
            assert(sv != seq!['.']) by {
                if sv == seq!['.'] {
                    assert(sv[0] == '.');
                }
            }
        }
        if len > 1 {
            assert(sv != seq!['.']) by {
                if sv == seq!['.'] {
                    assert(sv.len() == 1);
                }
            }
        }
        reveal_strlit("/");
        assert("/"@ =~= seq!['/']);
    }
    if keep {
        out.append("/");
        out.append(seg);
    }
}

/// The settings file under the managed data directory.
pub fn settings_file_path(data_dir: &str) -> (r: String)
    ensures
        r@ == data_dir@ + "/settings.json"@,
{
    let mut s = data_dir.to_owned();
    s.append("/settings.json");
    s
}

} // verus!
