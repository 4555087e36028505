//! User-interface strings, read from `key=value` language files.
use vstd::hash_map::StringHashMap;
use vstd::prelude::*;
use vstd::string::*;
use vstd::utf8::*;

use crate::path;
use crate::path::FilePath;
use crate::text;

verus! {

/// The strings of one locale.
pub struct Language {
    /// Locale code, the stem of the language file (`en`, `hu`).
    pub locale: String,
    pub values: StringHashMap<String>,
}

/// What a `Language` stands for.
pub struct LanguageView {
    pub locale: Seq<char>,
    pub values: Map<Seq<char>, Seq<char>>,
}

impl LanguageView {
    /// The string under `key`, or `fallback` where the key is missing.
    pub open spec fn text(self, key: Seq<char>, fallback: Seq<char>) -> Seq<char> {
        if self.values.contains_key(key) {
            self.values[key]
        } else {
            fallback
        }
    }
}

impl View for Language {
    type V = LanguageView;

    open spec fn view(&self) -> LanguageView {
        LanguageView { locale: self.locale@, values: self.values@.map_values(|v: String| v@) }
    }
}

/// The pieces of `s` between its newlines.
pub open spec fn pieces(s: Seq<char>) -> Seq<Seq<char>>
    decreases s.len(),
{
    if s.len() == 0 {
        seq![Seq::<char>::empty()]
    } else {
        let before = pieces(s.drop_last());
        if s.last() == '\n' {
            before.push(Seq::<char>::empty())
        } else {
            before.drop_last().push(before.last().push(s.last()))
        }
    }
}

/// The place of the first `=` in `s`, or its length where there is none.
pub open spec fn equals_sign(s: Seq<char>) -> nat
    decreases s.len(),
{
    if s.len() == 0 || s[0] == '=' {
        0
    } else {
        1 + equals_sign(s.drop_first())
    }
}

/// The entry on one line: blank lines, comments that start with `#` and lines without `=`
/// hold none.
pub open spec fn line_entry(line: Seq<char>) -> Option<(Seq<char>, Seq<char>)> {
    let s = text::trimmed(line);
    let at = equals_sign(s) as int;
    if s.len() == 0 || s[0] == '#' || at == s.len() {
        None
    } else {
        Some((text::trimmed(s.take(at)), text::trimmed(s.skip(at + 1))))
    }
}

/// The entries of a sequence of lines; of two with one key the later counts.
pub open spec fn entries(lines: Seq<Seq<char>>) -> Map<Seq<char>, Seq<char>>
    decreases lines.len(),
{
    if lines.len() == 0 {
        Map::empty()
    } else {
        match line_entry(lines.last()) {
            Some((key, value)) => entries(lines.drop_last()).insert(key, value),
            None => entries(lines.drop_last()),
        }
    }
}

/// The first text in a list of attempts that is there.
pub open spec fn first_text(attempts: Seq<Option<String>>) -> Option<Seq<char>>
    decreases attempts.len(),
{
    if attempts.len() == 0 {
        None
    } else {
        match attempts[0] {
            Some(s) => Some(s@),
            None => first_text(attempts.drop_first()),
        }
    }
}

/// The strings that a language file with these contents defines; none without a file.
pub open spec fn file_values(contents: Option<Seq<char>>) -> Map<Seq<char>, Seq<char>> {
    match contents {
        Some(s) => entries(pieces(s)),
        None => Map::empty(),
    }
}

/// The strings of `locale`, from the first language file that could be read.
pub open spec fn loaded_language(
    locale: Seq<char>,
    attempts: Seq<Option<String>>,
) -> LanguageView {
    LanguageView { locale, values: file_values(first_text(attempts)) }
}

/// Reads one line into `values`.
fn read_line(values: &mut StringHashMap<String>, line: &str)
    ensures
        final(values)@.map_values(|v: String| v@) == (match line_entry(line@) {
            Some((key, value)) => old(values)@.map_values(|v: String| v@).insert(key, value),
            None => old(values)@.map_values(|v: String| v@),
        }),
{
    let s = text::trim(line);
    let cs = text::chars_of(s);
    let n: usize = cs.len();
    if n == 0 || cs[0] == '#' {
        return;
    }
    let mut at: usize = 0;
    assert(s@.skip(0) =~= s@);
    while at < n && cs[at] != '='
        invariant
            cs@ == s@,
            n == cs.len(),
            at <= n,
            equals_sign(s@) == at + equals_sign(s@.skip(at as int)),
        decreases n - at,
    {
        assert(s@.skip(at as int).drop_first() =~= s@.skip(at + 1));
        at = at + 1;
    }
    if at == n {
        return;
    }
    let key = text::trim(s.substring_char(0, at)).to_owned();
    let value = text::trim(s.substring_char(at + 1, n)).to_owned();
    assert(s@.take(at as int) =~= s@.subrange(0, at as int));
    assert(s@.skip(at + 1) =~= s@.subrange(at + 1, n as int));
    let ghost before = values@;
    values.insert(key, value);
    assert(values@.map_values(|v: String| v@) =~= before.map_values(|v: String| v@).insert(
        key@,
        value@,
    ));
}

/// Reads a whole language file.
fn read_values(contents: &str) -> (values: StringHashMap<String>)
    ensures
        values@.map_values(|v: String| v@) == entries(pieces(contents@)),
{
    let cs = text::chars_of(contents);
    let n: usize = cs.len();
    let mut values = StringHashMap::<String>::new();
    let mut start: usize = 0;
    let mut i: usize = 0;
    proof {
        assert(contents@.take(0) =~= Seq::<char>::empty());
        assert(pieces(Seq::<char>::empty()).drop_last() =~= Seq::<Seq<char>>::empty());
        assert(values@.map_values(|v: String| v@) =~= Map::<Seq<char>, Seq<char>>::empty());
        assert(contents@.subrange(0, 0) =~= Seq::<char>::empty());
    }
    while i < n
        invariant
            cs@ == contents@,
            n == cs.len(),
            start <= i <= n,
            pieces(contents@.take(i as int)).len() > 0,
            pieces(contents@.take(i as int)).last() == contents@.subrange(
                start as int,
                i as int,
            ),
            values@.map_values(|v: String| v@) == entries(
                pieces(contents@.take(i as int)).drop_last(),
            ),
        decreases n - i,
    {
        let ghost before = pieces(contents@.take(i as int));
        let ghost after = pieces(contents@.take(i + 1));
        assert(contents@.take(i + 1).drop_last() =~= contents@.take(i as int));
        assert(contents@.take(i + 1).last() == cs@[i as int]);
        if cs[i] == '\n' {
            read_line(&mut values, contents.substring_char(start, i));
            start = i + 1;
            assert(after.drop_last() =~= before);
            assert(contents@.subrange(i + 1, i + 1) =~= Seq::<char>::empty());
        } else {
            assert(after.drop_last() =~= before.drop_last());
            assert(contents@.subrange(start as int, i + 1) =~= contents@.subrange(
                start as int,
                i as int,
            ).push(cs@[i as int]));
        }
        i = i + 1;
    }
    assert(contents@.take(n as int) =~= contents@);
    read_line(&mut values, contents.substring_char(start, n));
    values
}

impl Language {
    /// Looks a string up, with `fallback` for a key that is missing.
    pub fn text<'a>(&'a self, key: &str, fallback: &'a str) -> (r: &'a str)
        ensures
            r@ == self@.text(key@, fallback@),
    {
        match self.values.get(key) {
            Some(value) => value.as_str(),
            None => fallback,
        }
    }

    /// Builds the strings of the locale that the environment asks for, English where it asks
    /// for none. `attempts` holds what reading each language file of that locale gave.
    pub fn load(env_locale: Option<&str>, attempts: &Vec<Option<String>>) -> (r: Language)
        ensures
            r@ == loaded_language(
                match env_locale {
                    Some(locale) => locale@,
                    None => "en"@,
                },
                attempts@,
            ),
    {
        match env_locale {
            Some(locale) => Language::load_locale(locale, attempts),
            None => Language::load_locale("en", attempts),
        }
    }

    /// Builds the strings of `locale` from the first language file that could be read;
    /// `attempts` holds what reading each candidate gave.
    pub fn load_locale(locale: &str, attempts: &Vec<Option<String>>) -> (r: Language)
        ensures
            r@ == loaded_language(locale@, attempts@),
    {
        let mut i: usize = 0;
        assert(attempts@.skip(0) =~= attempts@);
        while i < attempts.len()
            invariant
                i <= attempts.len(),
                first_text(attempts@) == first_text(attempts@.skip(i as int)),
            decreases attempts.len() - i,
        {
            match &attempts[i] {
                Some(contents) => {
                    let values = read_values(contents.as_str());
                    return Language { locale: locale.to_owned(), values };
                },
                None => {},
            }
            assert(attempts@.skip(i as int).drop_first() =~= attempts@.skip(i + 1));
            i = i + 1;
        }
        let values = StringHashMap::<String>::new();
        assert(values@.map_values(|v: String| v@) =~= Map::<Seq<char>, Seq<char>>::empty());
        Language { locale: locale.to_owned(), values }
    }
}

/// Where language files may lie: `lang` in the working directory, then beside the program,
/// then two levels above it.
pub open spec fn lang_dirs(exe_dir: Option<Seq<u8>>) -> Seq<Seq<u8>> {
    match exe_dir {
        Some(dir) => seq![
            path::path_of("lang"@),
            path::joined(dir, path::path_of("lang"@)),
            path::joined(dir, path::path_of("../../lang"@)),
        ],
        None => seq![path::path_of("lang"@)],
    }
}

/// The place of the first `true`, or the length where there is none.
pub open spec fn first_true(flags: Seq<bool>) -> int
    decreases flags.len(),
{
    if flags.len() == 0 || flags[0] {
        0
    } else {
        1 + first_true(flags.drop_first())
    }
}

/// The first of `dirs` that is a directory, the first of all where none is.
pub open spec fn chosen_dir(dirs: Seq<Seq<u8>>, is_dir: Seq<bool>) -> Seq<u8> {
    if first_true(is_dir) < dirs.len() {
        dirs[first_true(is_dir)]
    } else {
        dirs[0]
    }
}

/// The directories to look for language files in, in order; `exe_dir` is the directory of the
/// running program, where it is known.
pub fn lang_dir_candidates(exe_dir: Option<&FilePath>) -> (r: Vec<FilePath>)
    ensures
        path::path_views(r@) == lang_dirs(
            match exe_dir {
                Some(dir) => Some(dir@),
                None => None,
            },
        ),
{
    let mut r: Vec<FilePath> = Vec::new();
    r.push(FilePath::of("lang"));
    match exe_dir {
        Some(dir) => {
            r.push(dir.join("lang"));
            r.push(dir.join("../../lang"));
            assert(path::path_views(r@) =~= lang_dirs(Some(dir@)));
        },
        None => {
            assert(path::path_views(r@) =~= lang_dirs(None));
        },
    }
    r
}

/// Picks the first candidate that is a directory, the first of all where none is.
/// `is_dir[i]` tells whether candidate `i` is one.
pub fn find_lang_dir(candidates: &Vec<FilePath>, is_dir: &Vec<bool>) -> (r: FilePath)
    requires
        candidates.len() > 0,
        is_dir.len() == candidates.len(),
    ensures
        r@ == chosen_dir(path::path_views(candidates@), is_dir@),
{
    let ghost dirs = path::path_views(candidates@);
    let mut i: usize = 0;
    assert(is_dir@.skip(0) =~= is_dir@);
    while i < candidates.len()
        invariant
            i <= candidates.len(),
            candidates.len() > 0,
            is_dir.len() == candidates.len(),
            dirs == path::path_views(candidates@),
            first_true(is_dir@) == i + first_true(is_dir@.skip(i as int)),
        decreases candidates.len() - i,
    {
        if is_dir[i] {
            assert(dirs[i as int] == candidates@[i as int]@);
            return candidates[i].clone();
        }
        assert(is_dir@.skip(i as int).drop_first() =~= is_dir@.skip(i + 1));
        i = i + 1;
    }
    assert(dirs[0] == candidates@[0]@);
    candidates[0].clone()
}

/// The files to try for `locale`, in order: in `lang_dir` its own file and then the English one,
/// after them the same two in `lang` under the working directory.
pub open spec fn locale_file_views(lang_dir: Seq<u8>, locale: Seq<char>) -> Seq<Seq<u8>> {
    seq![
        path::joined(lang_dir, path::path_of(locale + ".lang"@)),
        path::joined(lang_dir, path::path_of("en.lang"@)),
        path::path_of("lang/"@ + locale + ".lang"@),
        path::path_of("lang/en.lang"@),
    ]
}

/// The language files to try for `locale`, in order.
pub fn locale_files(lang_dir: &FilePath, locale: &str) -> (r: Vec<FilePath>)
    ensures
        path::path_views(r@) == locale_file_views(lang_dir@, locale@),
{
    let mut file = locale.to_owned();
    file.append(".lang");
    let mut relative = "lang/".to_owned();
    relative.append(locale);
    relative.append(".lang");
    let mut r: Vec<FilePath> = Vec::new();
    r.push(lang_dir.join(file.as_str()));
    r.push(lang_dir.join("en.lang"));
    r.push(FilePath::of(relative.as_str()));
    r.push(FilePath::of("lang/en.lang"));
    assert(path::path_views(r@) =~= locale_file_views(lang_dir@, locale@));
    r
}

/// An ASCII capital in lower case, any other character as it is.
pub open spec fn ascii_lower(c: char) -> char {
    if 'A' as u32 <= c as u32 <= 'Z' as u32 {
        (c as u32 + 32) as char
    } else {
        c
    }
}

/// `s` with its ASCII capitals in lower case.
pub open spec fn lowered(s: Seq<char>) -> Seq<char> {
    s.map_values(|c: char| ascii_lower(c))
}

/// A status that has a translation.
pub open spec fn is_known_status(status: Seq<char>) -> bool {
    let s = lowered(status);
    ||| s == "charging"@
    ||| s == "discharging"@
    ||| s == "not charging"@
    ||| s == "full"@
    ||| s == "unknown"@
}

/// A kernel battery status in the user's language; one that is not known stays as it is.
pub open spec fn status_text(status: Seq<char>, language: LanguageView) -> Seq<char> {
    let s = lowered(status);
    if s == "charging"@ {
        language.text(
            "battery.status.charging"@,
            language.text("status.charging"@, "charging"@),
        )
    } else if s == "discharging"@ {
        language.text(
            "battery.status.discharging"@,
            language.text("status.discharging"@, "discharging"@),
        )
    } else if s == "not charging"@ {
        language.text("battery.status.not_charging"@, "not charging"@)
    } else if s == "full"@ {
        language.text("battery.status.full"@, "full"@)
    } else if s == "unknown"@ {
        language.text("battery.status.unknown"@, "unknown"@)
    } else {
        status
    }
}

/// Tells whether `s`, in lower case, is `word`.
fn is_word(s: &str, word: &str) -> (r: bool)
    ensures
        r == (lowered(s@) == word@),
{
    let x = text::chars_of(s);
    let y = text::chars_of(word);
    assert(lowered(s@).len() == s@.len());
    if x.len() != y.len() {
        return false;
    }
    let mut i: usize = 0;
    while i < x.len()
        invariant
            x@ == s@,
            y@ == word@,
            x.len() == y.len(),
            i <= x.len(),
            forall|j: int| 0 <= j < i ==> lowered(s@)[j] == word@[j],
        decreases x.len() - i,
    {
        let u: u32 = x[i] as u32;
        let lower: u32 = if 65 <= u && u <= 90 {
            u + 32
        } else {
            u
        };
        assert(lowered(s@)[i as int] == ascii_lower(s@[i as int]));
        assert(ascii_lower(s@[i as int]) as u32 == lower);
        let w: u32 = y[i] as u32;
        if lower != w {
            return false;
        }
        proof {
            char_u32_cast(ascii_lower(s@[i as int]), lower);
            char_u32_cast(word@[i as int], w);
        }
        i = i + 1;
    }
    assert(lowered(s@) =~= word@);
    true
}

/// Translates a kernel battery status, whatever its letter case.
pub fn translate_battery_status<'a>(status: &'a str, language: &'a Language) -> (r: &'a str)
    ensures
        r@ == status_text(status@, language@),
{
    if is_word(status, "charging") {
        language.text("battery.status.charging", language.text("status.charging", "charging"))
    } else if is_word(status, "discharging") {
        language.text(
            "battery.status.discharging",
            language.text("status.discharging", "discharging"),
        )
    } else if is_word(status, "not charging") {
        language.text("battery.status.not_charging", "not charging")
    } else if is_word(status, "full") {
        language.text("battery.status.full", "full")
    } else if is_word(status, "unknown") {
        language.text("battery.status.unknown", "unknown")
    } else {
        status
    }
}

/// Two spellings of a known status that differ only in ASCII case are translated alike.
pub proof fn status_ignores_case(a: Seq<char>, b: Seq<char>, language: LanguageView)
    requires
        lowered(a) == lowered(b),
        is_known_status(a),
    ensures
        status_text(a, language) == status_text(b, language),
{
}

/// A status without a translation is shown as the kernel wrote it.
pub proof fn unknown_status_is_kept(status: Seq<char>, language: LanguageView)
    requires
        !is_known_status(status),
    ensures
        status_text(status, language) == status,
{
}

proof fn lemma_trim_lengths(s: Seq<char>)
    ensures
        trim_lengths(s),
    decreases s.len(),
{
    if s.len() > 0 {
        lemma_trim_lengths(s.drop_first());
        lemma_trim_lengths(s.drop_last());
    }
}

spec fn trim_lengths(s: Seq<char>) -> bool {
    &&& text::trim_start(s).len() <= s.len()
    &&& text::trim_end(s).len() <= s.len()
}

proof fn lemma_trimmed_ends(s: Seq<char>)
    requires
        text::trimmed(s) == s,
        s.len() > 0,
    ensures
        !text::is_white_space(s[0]),
        !text::is_white_space(s.last()),
{
    let t = text::trim_start(s);
    lemma_trim_lengths(t);
    if text::is_white_space(s[0]) {
        lemma_trim_lengths(s.drop_first());
    } else if text::is_white_space(s.last()) {
        lemma_trim_lengths(s.drop_last());
    }
}

proof fn lemma_equals_sign(key: Seq<char>, rest: Seq<char>)
    requires
        !key.contains('='),
    ensures
        equals_sign(key + seq!['='] + rest) == key.len(),
    decreases key.len(),
{
    let s = key + seq!['='] + rest;
    if key.len() > 0 {
        assert(key.contains(key[0]));
        let tail = key.drop_first();
        assert forall|i: int| 0 <= i < tail.len() implies tail[i] != '=' by {
            assert(key.contains(key[i + 1]));
        }
        lemma_equals_sign(tail, rest);
        assert(s.drop_first() =~= tail + seq!['='] + rest);
    }
}

/// A key and a value that survive trimming.
pub open spec fn is_plain_entry(key: Seq<char>, value: Seq<char>) -> bool {
    &&& text::trimmed(key) == key
    &&& text::trimmed(value) == value
    &&& !key.contains('=')
    &&& !key.contains('\n')
    &&& !value.contains('\n')
    &&& key.len() > 0 ==> key[0] != '#'
}

proof fn lemma_plain_line(key: Seq<char>, value: Seq<char>)
    requires
        is_plain_entry(key, value),
    ensures
        line_entry(key + seq!['='] + value) == Some((key, value)),
{
    let line = key + seq!['='] + value;
    if key.len() > 0 {
        lemma_trimmed_ends(key);
        assert(line[0] == key[0]);
    } else {
        assert(line[0] == '=');
    }
    if value.len() > 0 {
        lemma_trimmed_ends(value);
        assert(line.last() == value.last());
    } else {
        assert(line.last() == '=');
    }
    assert(text::trimmed(line) == line);
    lemma_equals_sign(key, value);
    assert(line.take(key.len() as int) =~= key);
    assert(line.skip(key.len() as int + 1) =~= value);
}

/// An entry on any line of a language file is what a lookup of its key gives, unless a later
/// line has the same key.
pub proof fn written_entry_is_read_back(
    contents: Seq<char>,
    line: int,
    key: Seq<char>,
    value: Seq<char>,
    language: LanguageView,
    fallback: Seq<char>,
)
    requires
        is_plain_entry(key, value),
        0 <= line < pieces(contents).len(),
        pieces(contents)[line] == key + seq!['='] + value,
        forall|j: int|
            line < j < pieces(contents).len() ==> (line_entry(
                #[trigger] pieces(contents)[j],
            ) matches Some(e) ==> e.0 != key),
        language.values == file_values(Some(contents)),
    ensures
        language.text(key, fallback) == value,
{
    lemma_plain_line(key, value);
    lemma_entry_survives(pieces(contents), line, key, value);
}

proof fn lemma_entry_survives(lines: Seq<Seq<char>>, k: int, key: Seq<char>, value: Seq<char>)
    requires
        0 <= k < lines.len(),
        line_entry(lines[k]) == Some((key, value)),
        forall|j: int|
            k < j < lines.len() ==> (line_entry(#[trigger] lines[j]) matches Some(e) ==> e.0
                != key),
    ensures
        entries(lines).contains_key(key),
        entries(lines)[key] == value,
    decreases lines.len(),
{
    if k < lines.len() - 1 {
        let short = lines.drop_last();
        assert forall|j: int| k < j < short.len() implies (line_entry(
            #[trigger] short[j],
        ) matches Some(e) ==> e.0 != key) by {
            assert(short[j] == lines[j]);
        }
        lemma_entry_survives(short, k, key, value);
        assert(lines[lines.len() - 1] == lines.last());
    }
}

/// The pieces one after the other, with a newline between them.
pub open spec fn with_newlines(lines: Seq<Seq<char>>) -> Seq<char>
    decreases lines.len(),
{
    if lines.len() == 0 {
        Seq::empty()
    } else if lines.len() == 1 {
        lines[0]
    } else {
        with_newlines(lines.drop_last()).push('\n') + lines.last()
    }
}

/// The lines of a text hold no newline, and put together again they give the text.
pub proof fn lines_rebuild_the_text(s: Seq<char>)
    ensures
        pieces(s).len() > 0,
        with_newlines(pieces(s)) == s,
        forall|i: int| 0 <= i < pieces(s).len() ==> !(#[trigger] pieces(s)[i]).contains('\n'),
    decreases s.len(),
{
    if s.len() == 0 {
        assert(with_newlines(pieces(s)) =~= s);
    } else {
        let t = s.drop_last();
        let before = pieces(t);
        let after = pieces(s);
        lines_rebuild_the_text(t);
        assert(s =~= t.push(s.last()));
        if s.last() == '\n' {
            assert(after.drop_last() =~= before);
            assert(after.last() =~= Seq::<char>::empty());
            assert(with_newlines(after) =~= s);
        } else {
            assert(after.drop_last() =~= before.drop_last());
            assert(after.last() == before.last().push(s.last()));
            assert(with_newlines(after) =~= s);
            assert forall|i: int| 0 <= i < after.len() implies !(#[trigger] after[i]).contains(
                '\n',
            ) by {
                if i < after.len() - 1 {
                    assert(after[i] == before[i]);
                } else {
                    let old_line = before[before.len() - 1];
                    assert(!old_line.contains('\n'));
                    assert forall|j: int| 0 <= j < after[i].len() implies after[i][j] != '\n' by {
                        if j < old_line.len() {
                            assert(old_line.contains(old_line[j]));
                        }
                    }
                }
            }
        }
    }
}

/// A blank line, a comment or a line without `=` changes nothing, wherever it stands.
pub proof fn lines_without_entry_are_ignored(
    before: Seq<Seq<char>>,
    line: Seq<char>,
    after: Seq<Seq<char>>,
)
    requires
        line_entry(line) is None,
    ensures
        entries(before.push(line) + after) == entries(before + after),
    decreases after.len(),
{
    if after.len() == 0 {
        assert(before.push(line) + after =~= before.push(line));
        assert(before + after =~= before);
        assert(before.push(line).drop_last() =~= before);
    } else {
        lines_without_entry_are_ignored(before, line, after.drop_last());
        assert((before.push(line) + after).drop_last() =~= before.push(line) + after.drop_last());
        assert((before + after).drop_last() =~= before + after.drop_last());
    }
}

/// A locale without a file of its own keeps its code and shows the English strings: every
/// lookup gives what it gives in English.
pub proof fn missing_locale_falls_back_to_english(
    locale: Seq<char>,
    attempts: Seq<Option<String>>,
    english_attempts: Seq<Option<String>>,
    key: Seq<char>,
    fallback: Seq<char>,
)
    requires
        attempts.len() > 1,
        attempts[0] is None,
        attempts[1] is Some,
        english_attempts.len() > 0,
        english_attempts[0] == attempts[1],
    ensures
        loaded_language(locale, attempts).locale == locale,
        loaded_language(locale, attempts).text(key, fallback) == loaded_language(
            "en"@,
            english_attempts,
        ).text(key, fallback),
{
    reveal_with_fuel(first_text, 3);
    assert(attempts.drop_first()[0] == attempts[1]);
}

/// Without any language file every lookup gives its fallback.
pub proof fn no_file_gives_fallbacks(
    locale: Seq<char>,
    attempts: Seq<Option<String>>,
    key: Seq<char>,
    fallback: Seq<char>,
)
    requires
        forall|i: int| 0 <= i < attempts.len() ==> #[trigger] attempts[i] is None,
    ensures
        loaded_language(locale, attempts).text(key, fallback) == fallback,
    decreases attempts.len(),
{
    if attempts.len() > 0 {
        no_file_gives_fallbacks(locale, attempts.drop_first(), key, fallback);
    }
}

/// `s` is what the language says under `key`: the string that it holds there, or `fallback` where
/// it holds none.
pub open spec fn is_wording(
    s: Seq<char>,
    language: LanguageView,
    key: Seq<char>,
    fallback: Seq<char>,
) -> bool {
    &&& language.values.contains_key(key) ==> s == language.values[key]
    &&& !language.values.contains_key(key) ==> s == fallback
}

/// A lookup gives the string under the key itself, and the fallback only where there is none.
pub proof fn lookup_gives_the_string_under_the_key(
    language: LanguageView,
    key: Seq<char>,
    fallback: Seq<char>,
)
    ensures
        is_wording(language.text(key, fallback), language, key, fallback),
{
}

/// `s` is `word`, with any of its letters as ASCII capitals.
pub open spec fn is_spelling(s: Seq<char>, word: Seq<char>) -> bool {
    &&& s.len() == word.len()
    &&& forall|i: int|
        0 <= i < s.len() ==> (#[trigger] s[i] == word[i] || ('a' as u32 <= word[i] as u32
            <= 'z' as u32 && s[i] as u32 + 32 == word[i] as u32))
}

spec fn has_no_capital(word: Seq<char>) -> bool {
    forall|i: int| 0 <= i < word.len() ==> !('A' as u32 <= #[trigger] word[i] as u32 <= 'Z' as u32)
}

proof fn lemma_spelling(s: Seq<char>, word: Seq<char>)
    requires
        has_no_capital(word),
    ensures
        lowered(s) == word <==> is_spelling(s, word),
{
    let l = lowered(s);
    if l == word {
        assert forall|i: int| 0 <= i < s.len() implies (#[trigger] s[i] == word[i] || ('a' as u32
            <= word[i] as u32 <= 'z' as u32 && s[i] as u32 + 32 == word[i] as u32)) by {
            assert(l[i] == ascii_lower(s[i]));
        }
    }
    if is_spelling(s, word) {
        assert forall|i: int| 0 <= i < s.len() implies l[i] == word[i] by {
            assert(l[i] == ascii_lower(s[i]));
            if s[i] == word[i] {
                assert(!('A' as u32 <= word[i] as u32 <= 'Z' as u32));
            } else {
                char_u32_cast(word[i], word[i] as u32);
            }
        }
        assert(l =~= word);
    }
}

proof fn lemma_status_words(status: Seq<char>)
    ensures
        lowered(status) == "charging"@ <==> is_spelling(status, "charging"@),
        lowered(status) == "discharging"@ <==> is_spelling(status, "discharging"@),
        lowered(status) == "not charging"@ <==> is_spelling(status, "not charging"@),
        lowered(status) == "full"@ <==> is_spelling(status, "full"@),
        lowered(status) == "unknown"@ <==> is_spelling(status, "unknown"@),
        "charging"@.len() == 8,
        "discharging"@.len() == 11,
        "not charging"@.len() == 12,
        "full"@.len() == 4,
        "unknown"@.len() == 7,
{
    reveal_strlit("charging");
    reveal_strlit("discharging");
    reveal_strlit("not charging");
    reveal_strlit("full");
    reveal_strlit("unknown");
    lemma_spelling(status, "charging"@);
    lemma_spelling(status, "discharging"@);
    lemma_spelling(status, "not charging"@);
    lemma_spelling(status, "full"@);
    lemma_spelling(status, "unknown"@);
}

/// Each status that the kernel knows is translated by the entry of its own name, in every
/// spelling: `battery.status.` and the name, and by nothing else where the language has that
/// entry. The two that name a movement of charge have a second entry to fall back on.
pub proof fn status_is_translated_by_its_own_entry(status: Seq<char>, language: LanguageView)
    ensures
        is_spelling(status, "full"@) ==> is_wording(
            status_text(status, language),
            language,
            "battery.status.full"@,
            "full"@,
        ),
        is_spelling(status, "unknown"@) ==> is_wording(
            status_text(status, language),
            language,
            "battery.status.unknown"@,
            "unknown"@,
        ),
        is_spelling(status, "not charging"@) ==> is_wording(
            status_text(status, language),
            language,
            "battery.status.not_charging"@,
            "not charging"@,
        ),
        is_spelling(status, "charging"@) ==> {
            &&& language.values.contains_key("battery.status.charging"@) ==> status_text(
                status,
                language,
            ) == language.values["battery.status.charging"@]
            &&& !language.values.contains_key("battery.status.charging"@) ==> is_wording(
                status_text(status, language),
                language,
                "status.charging"@,
                "charging"@,
            )
        },
        is_spelling(status, "discharging"@) ==> {
            &&& language.values.contains_key("battery.status.discharging"@) ==> status_text(
                status,
                language,
            ) == language.values["battery.status.discharging"@]
            &&& !language.values.contains_key("battery.status.discharging"@) ==> is_wording(
                status_text(status, language),
                language,
                "status.discharging"@,
                "discharging"@,
            )
        },
{
    lemma_status_words(status);
}

/// A status that is none of the known ones, in any spelling, is shown as the kernel wrote it.
pub proof fn other_status_is_kept(status: Seq<char>, language: LanguageView)
    requires
        !is_spelling(status, "charging"@),
        !is_spelling(status, "discharging"@),
        !is_spelling(status, "not charging"@),
        !is_spelling(status, "full"@),
        !is_spelling(status, "unknown"@),
    ensures
        status_text(status, language) == status,
{
    lemma_status_words(status);
}

/// A line of a language file holds a key and a value around its first `=`, with whitespace around
/// each or not.
pub proof fn entry_line_is_read(
    line: Seq<char>,
    margins: (Seq<char>, Seq<char>, Seq<char>, Seq<char>),
    key: Seq<char>,
    value: Seq<char>,
)
    requires
        text::is_blank(margins.0),
        text::is_blank(margins.1),
        text::is_blank(margins.2),
        text::is_blank(margins.3),
        text::has_no_margin(key),
        text::has_no_margin(value),
        !key.contains('='),
        key.len() > 0 ==> key[0] != '#',
        line == margins.0 + key + margins.1 + seq!['='] + margins.2 + value + margins.3,
    ensures
        line_entry(line) == Some((key, value)),
{
    let left = key + margins.1;
    let right = margins.2 + value;
    let nothing = Seq::<char>::empty();
    // Trimming may cut a blank left side or a blank right side of the `=`.
    let l = if key.len() > 0 {
        left
    } else {
        nothing
    };
    let r = if value.len() > 0 {
        right
    } else {
        nothing
    };
    let before = if key.len() > 0 {
        margins.0
    } else {
        margins.0 + left
    };
    let after = if value.len() > 0 {
        margins.3
    } else {
        right + margins.3
    };
    let s = l + seq!['='] + r;
    assert(line =~= before + s + after);
    assert(s[0] == if key.len() > 0 {
        key[0]
    } else {
        '='
    });
    assert(s.last() == if value.len() > 0 {
        value.last()
    } else {
        '='
    });
    text::trimming_finds_the_text(before, s, after);
    assert forall|i: int| 0 <= i < l.len() implies l[i] != '=' by {
        if i < key.len() {
            assert(key.contains(key[i]));
        } else {
            assert(text::is_white_space(margins.1[i - key.len()]));
        }
    }
    lemma_equals_sign(l, r);
    assert(s.take(l.len() as int) =~= l);
    assert(s.skip(l.len() as int + 1) =~= r);
    assert(l =~= nothing + key + (if key.len() > 0 {
        margins.1
    } else {
        nothing
    }));
    assert(r =~= (if value.len() > 0 {
        margins.2
    } else {
        nothing
    }) + value + nothing);
    text::trimming_finds_the_text(
        nothing,
        key,
        if key.len() > 0 {
            margins.1
        } else {
            nothing
        },
    );
    text::trimming_finds_the_text(
        if value.len() > 0 {
            margins.2
        } else {
            nothing
        },
        value,
        nothing,
    );
}

/// A line that is blank, whose first character after whitespace is `#`, or that has no `=`, holds
/// no entry.
pub proof fn other_line_holds_no_entry(line: Seq<char>, margin: Seq<char>, rest: Seq<char>)
    requires
        text::is_blank(margin),
        line == margin + rest,
        text::is_blank(rest) || rest[0] == '#' || !rest.contains('='),
    ensures
        line_entry(line) is None,
{
    let cut = text::trimming_cuts_the_margin(line);
    let s = text::trimmed(line);
    if s.len() > 0 {
        if text::is_blank(rest) {
            assert(text::is_white_space(line[cut.0.len() as int]));
            assert(s[0] == line[cut.0.len() as int]);
        } else if rest.len() > 0 && rest[0] == '#' {
            assert(line[margin.len() as int] == '#');
            if cut.0.len() > margin.len() {
                assert(text::is_white_space(cut.0[margin.len() as int]));
                assert(cut.0[margin.len() as int] == line[margin.len() as int]);
            }
            if cut.0.len() < margin.len() {
                assert(s[0] == line[cut.0.len() as int]);
                assert(margin[cut.0.len() as int] == s[0]);
            }
            assert(s[0] == line[cut.0.len() as int]);
        } else {
            assert forall|i: int| 0 <= i < s.len() implies s[i] != '=' by {
                let j = cut.0.len() + i;
                assert(s[i] == line[j]);
                if j < margin.len() {
                    assert(text::is_white_space(margin[j]));
                } else {
                    assert(rest.contains(rest[j - margin.len()]));
                }
            }
            lemma_no_equals_sign(s);
        }
    }
}

proof fn lemma_no_equals_sign(s: Seq<char>)
    requires
        forall|i: int| 0 <= i < s.len() ==> s[i] != '=',
    ensures
        equals_sign(s) == s.len(),
    decreases s.len(),
{
    if s.len() > 0 {
        lemma_no_equals_sign(s.drop_first());
    }
}

/// A language file defines nothing but what its lines say: every string has a line.
pub proof fn every_string_has_its_line(lines: Seq<Seq<char>>, key: Seq<char>) -> (k: int)
    requires
        entries(lines).contains_key(key),
    ensures
        0 <= k < lines.len(),
        line_entry(lines[k]) == Some((key, entries(lines)[key])),
    decreases lines.len(),
{
    match line_entry(lines.last()) {
        Some((other, value)) => {
            if other == key {
                lines.len() - 1
            } else {
                every_string_has_its_line(lines.drop_last(), key)
            }
        },
        None => every_string_has_its_line(lines.drop_last(), key),
    }
}

/// The strings of a locale are those of the first file that could be read, and of no other.
pub proof fn first_readable_file_counts(
    locale: Seq<char>,
    attempts: Seq<Option<String>>,
    k: int,
)
    requires
        0 <= k < attempts.len(),
        attempts[k] is Some,
        forall|i: int| 0 <= i < k ==> #[trigger] attempts[i] is None,
    ensures
        loaded_language(locale, attempts).locale == locale,
        loaded_language(locale, attempts).values == entries(pieces(attempts[k]->0@)),
    decreases attempts.len(),
{
    if k > 0 {
        assert(attempts[0] is None);
        let rest = attempts.drop_first();
        assert forall|i: int| 0 <= i < k - 1 implies #[trigger] rest[i] is None by {
            assert(attempts[i + 1] is None);
        }
        first_readable_file_counts(locale, rest, k - 1);
    }
}

/// The directory that is taken is the first one that is there, and the first of all where none
/// is.
pub proof fn first_directory_counts(dirs: Seq<Seq<u8>>, is_dir: Seq<bool>, k: int)
    requires
        dirs.len() > 0,
        is_dir.len() == dirs.len(),
        0 <= k <= dirs.len(),
        forall|i: int| 0 <= i < k ==> !#[trigger] is_dir[i],
    ensures
        k < dirs.len() && is_dir[k] ==> chosen_dir(dirs, is_dir) == dirs[k],
        k == dirs.len() ==> chosen_dir(dirs, is_dir) == dirs[0],
{
    lemma_first_true(is_dir, k);
}

proof fn lemma_first_true(flags: Seq<bool>, k: int)
    requires
        0 <= k <= flags.len(),
        forall|i: int| 0 <= i < k ==> !#[trigger] flags[i],
    ensures
        k == flags.len() || flags[k] ==> first_true(flags) == k,
    decreases flags.len(),
{
    if k > 0 {
        assert(!flags[0]);
        let rest = flags.drop_first();
        assert forall|i: int| 0 <= i < k - 1 implies !#[trigger] rest[i] by {
            assert(!flags[i + 1]);
        }
        lemma_first_true(rest, k - 1);
    }
}

/// Language files are looked for in `lang` under the working directory, then beside the program,
/// then two levels above it; where the program's place is not known, in the first alone.
pub proof fn language_directories_in_order(exe_dir: Option<Seq<u8>>, is_dir: Seq<bool>)
    requires
        is_dir.len() == lang_dirs(exe_dir).len(),
    ensures
        is_dir.len() == (if exe_dir is Some {
            3int
        } else {
            1
        }),
        is_dir[0] || exe_dir is None ==> chosen_dir(lang_dirs(exe_dir), is_dir) == path::path_of(
            "lang"@,
        ),
        exe_dir matches Some(dir) ==> {
            &&& !is_dir[0] && is_dir[1] ==> chosen_dir(lang_dirs(exe_dir), is_dir) == path::joined(
                dir,
                path::path_of("lang"@),
            )
            &&& !is_dir[0] && !is_dir[1] && is_dir[2] ==> chosen_dir(lang_dirs(exe_dir), is_dir)
                == path::joined(dir, path::path_of("../../lang"@))
            &&& !is_dir[0] && !is_dir[1] && !is_dir[2] ==> chosen_dir(lang_dirs(exe_dir), is_dir)
                == path::path_of("lang"@)
        },
{
    let dirs = lang_dirs(exe_dir);
    if is_dir[0] {
        first_directory_counts(dirs, is_dir, 0);
    } else if exe_dir is None {
        first_directory_counts(dirs, is_dir, 1);
    } else if is_dir[1] {
        first_directory_counts(dirs, is_dir, 1);
    } else if is_dir[2] {
        first_directory_counts(dirs, is_dir, 2);
    } else {
        first_directory_counts(dirs, is_dir, 3);
    }
}

/// A locale's own file counts before the English one, in either place, and the language directory
/// before the working directory: with the contents of the files to try, the strings are those of
/// the first file in this order that is there.
pub proof fn locale_file_comes_before_english(
    lang_dir: Seq<u8>,
    locale: Seq<char>,
    attempts: Seq<Option<String>>,
)
    requires
        attempts.len() == locale_file_views(lang_dir, locale).len(),
    ensures
        attempts.len() == 4,
        ({
            let files = locale_file_views(lang_dir, locale);
            let values = loaded_language(locale, attempts).values;
            &&& files[0] == path::joined(lang_dir, path::path_of(locale + ".lang"@))
            &&& files[1] == path::joined(lang_dir, path::path_of("en.lang"@))
            &&& files[2] == path::path_of("lang/"@ + locale + ".lang"@)
            &&& files[3] == path::path_of("lang/en.lang"@)
            &&& attempts[0] matches Some(own) ==> values == entries(pieces(own@))
            &&& attempts[0] is None ==> (attempts[1] matches Some(english) ==> values == entries(
                pieces(english@),
            ))
            &&& attempts[0] is None && attempts[1] is None ==> (attempts[2] matches Some(own)
                ==> values == entries(pieces(own@)))
            &&& attempts[0] is None && attempts[1] is None && attempts[2] is None ==> (
            attempts[3] matches Some(english) ==> values == entries(pieces(english@)))
            &&& attempts[0] is None && attempts[1] is None && attempts[2] is None && attempts[3]
                is None ==> values == Map::<Seq<char>, Seq<char>>::empty()
        }),
{
    if attempts[0] is Some {
        first_readable_file_counts(locale, attempts, 0);
    } else if attempts[1] is Some {
        first_readable_file_counts(locale, attempts, 1);
    } else if attempts[2] is Some {
        first_readable_file_counts(locale, attempts, 2);
    } else if attempts[3] is Some {
        first_readable_file_counts(locale, attempts, 3);
    } else {
        reveal_with_fuel(first_text, 5);
    }
}

} // verus!
