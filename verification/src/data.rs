//! The alias data kept in the alias file, and how it is read from and written
//! to the file's bytes.
use vstd::prelude::*;

use crate::binary_data::{
    decode_entries, encode_value, encode_values, lemma_decode_entry_consumes, lemma_values_roundtrip,
    storable, storable_value, BinaryContainer, BinaryReader, BinaryType, BinaryValue, BinaryWritter,
};
use crate::cli::{AppOptions, CommandOptions};
use crate::result::AppError;

verus! {

/// The texts of a list of pairs of strings.
pub open spec fn pair_views(entries: Seq<(String, String)>) -> Seq<(Seq<char>, Seq<char>)> {
    entries.map_values(|e: (String, String)| (e.0@, e.1@))
}

/// No key occurs twice.
pub open spec fn keys_distinct(pairs: Seq<(Seq<char>, Seq<char>)>) -> bool {
    forall|i: int, j: int| 0 <= i < j < pairs.len() ==> pairs[i].0 != pairs[j].0
}

/// The map that inserting the pairs one after the other makes.
pub open spec fn pairs_map(pairs: Seq<(Seq<char>, Seq<char>)>) -> Map<Seq<char>, Seq<char>>
    decreases pairs.len(),
{
    if pairs.len() == 0 {
        Map::empty()
    } else {
        pairs_map(pairs.drop_last()).insert(pairs.last().0, pairs.last().1)
    }
}

/// A key is in the map exactly when some pair holds it.
pub proof fn lemma_pairs_map_dom(pairs: Seq<(Seq<char>, Seq<char>)>, key: Seq<char>)
    ensures
        pairs_map(pairs).contains_key(key) <==> exists|i: int|
            0 <= i < pairs.len() && #[trigger] pairs[i].0 == key,
    decreases pairs.len(),
{
    if pairs.len() > 0 {
        let init = pairs.drop_last();
        lemma_pairs_map_dom(init, key);
        if pairs_map(pairs).contains_key(key) && key != pairs.last().0 {
            let i = choose|i: int| 0 <= i < init.len() && #[trigger] init[i].0 == key;
            assert(pairs[i].0 == key);
        }
        if exists|i: int| 0 <= i < pairs.len() && #[trigger] pairs[i].0 == key {
            let i = choose|i: int| 0 <= i < pairs.len() && #[trigger] pairs[i].0 == key;
            if i < init.len() {
                assert(init[i].0 == key);
            }
        }
    }
}

/// Where no key occurs twice, each pair's key maps to that pair's value.
pub proof fn lemma_pairs_map_value(pairs: Seq<(Seq<char>, Seq<char>)>, i: int)
    requires
        keys_distinct(pairs),
        0 <= i < pairs.len(),
    ensures
        pairs_map(pairs).contains_key(pairs[i].0),
        pairs_map(pairs)[pairs[i].0] == pairs[i].1,
    decreases pairs.len(),
{
    let init = pairs.drop_last();
    if i < pairs.len() - 1 {
        assert(keys_distinct(init));
        lemma_pairs_map_value(init, i);
        assert(init[i] == pairs[i]);
        assert(pairs[i].0 != pairs.last().0);
    }
}

/// The aliases: each alias stands for one file.
pub struct AliasMap {
    entries: Vec<(String, String)>,
}

impl AliasMap {
    #[verifier::type_invariant]
    spec fn inv(self) -> bool {
        keys_distinct(pair_views(self.entries@))
    }

    /// The aliases and their files, in the order they are written out.
    pub closed spec fn pairs(self) -> Seq<(Seq<char>, Seq<char>)> {
        pair_views(self.entries@)
    }

    /// An empty set of aliases.
    pub fn new() -> (map: AliasMap)
        ensures
            map@ == Map::<Seq<char>, Seq<char>>::empty(),
            map.pairs() == Seq::<(Seq<char>, Seq<char>)>::empty(),
    {
        let map = AliasMap { entries: Vec::new() };
        assert(map.pairs() =~= Seq::<(Seq<char>, Seq<char>)>::empty());
        map
    }

    /// How many aliases there are.
    pub fn len(&self) -> (n: usize)
        ensures
            n == self.pairs().len(),
    {
        self.entries.len()
    }

    /// The `i`-th alias and its file, in the order they are written out.
    pub fn entry(&self, i: usize) -> (entry: (&String, &String))
        requires
            i < self.pairs().len(),
        ensures
            (entry.0@, entry.1@) == self.pairs()[i as int],
    {
        let e = &self.entries[i];
        (&e.0, &e.1)
    }

    /// Where `alias` is among the pairs, if it is.
    fn find(&self, alias: &String) -> (index: Option<usize>)
        ensures
            match index {
                Some(i) => i < self.pairs().len() && self.pairs()[i as int].0 == alias@,
                None => forall|j: int| 0 <= j < self.pairs().len() ==> self.pairs()[j].0 != alias@,
            },
    {
        let mut i: usize = 0;
        while i < self.entries.len()
            invariant
                i <= self.entries@.len(),
                forall|j: int| 0 <= j < i ==> self.pairs()[j].0 != alias@,
            decreases self.entries@.len() - i,
        {
            if self.entries[i].0 == *alias {
                return Some(i);
            }
            i = i + 1;
        }
        None
    }

    /// The file that `alias` stands for, if any.
    pub fn get(&self, alias: &String) -> (file: Option<&String>)
        ensures
            file.deep_view() == if self@.contains_key(alias@) {
                Some(self@[alias@])
            } else {
                None
            },
    {
        proof {
            use_type_invariant(self);
            lemma_pairs_map_dom(self.pairs(), alias@);
        }
        match self.find(alias) {
            Some(i) => {
                proof {
                    lemma_pairs_map_value(self.pairs(), i as int);
                }
                Some(&self.entries[i].1)
            },
            None => None,
        }
    }

    /// Makes `alias` stand for `file`, in place of what it stood for before:
    /// a new alias goes last, a known one keeps its place.
    pub fn insert(&mut self, alias: String, file: String)
        ensures
            final(self)@ == old(self)@.insert(alias@, file@),
            forall|i: int|
                0 <= i < old(self).pairs().len() && #[trigger] old(self).pairs()[i].0 == alias@
                    ==> final(self).pairs() == old(self).pairs().update(i, (alias@, file@)),
            (forall|i: int| 0 <= i < old(self).pairs().len() ==> #[trigger] old(self).pairs()[i].0 != alias@)
                ==> final(self).pairs() == old(self).pairs().push((alias@, file@)),
    {
        proof {
            use_type_invariant(&*self);
        }
        let ghost old_pairs = self.pairs();
        let found = self.find(&alias);
        let mut entries: Vec<(String, String)> = Vec::new();
        std::mem::swap(&mut entries, &mut self.entries);
        let ghost new_pair = (alias@, file@);
        match found {
            Some(i) => {
                entries.set(i, (alias, file));
                let ghost new_pairs = pair_views(entries@);
                assert(new_pairs =~= old_pairs.update(i as int, new_pair));
                assert(keys_distinct(new_pairs));
                proof {
                    lemma_update_map(old_pairs, i as int, new_pair.1);
                    assert forall|j: int|
                        0 <= j < old_pairs.len() && #[trigger] old_pairs[j].0 == new_pair.0 implies j
                        == i by {}
                }
            },
            None => {
                entries.push((alias, file));
                let ghost new_pairs = pair_views(entries@);
                assert(new_pairs =~= old_pairs.push(new_pair));
                assert(new_pairs.drop_last() =~= old_pairs);
                assert(keys_distinct(new_pairs));
            },
        }
        self.entries = entries;
    }

    /// The aliases and their files, in the order they are written out.
    pub fn as_vec(&self) -> (entries: &Vec<(String, String)>)
        ensures
            pair_views(entries@) == self.pairs(),
    {
        &self.entries
    }
}

/// Giving an existing key a new value in place changes the map as an insert
/// does.
proof fn lemma_update_map(pairs: Seq<(Seq<char>, Seq<char>)>, i: int, value: Seq<char>)
    requires
        keys_distinct(pairs),
        0 <= i < pairs.len(),
    ensures
        pairs_map(pairs.update(i, (pairs[i].0, value))) == pairs_map(pairs).insert(pairs[i].0, value),
{
    let key = pairs[i].0;
    let new_pairs = pairs.update(i, (key, value));
    assert(keys_distinct(new_pairs));
    let m1 = pairs_map(new_pairs);
    let m2 = pairs_map(pairs).insert(key, value);
    assert forall|k: Seq<char>| m1.contains_key(k) <==> m2.contains_key(k) by {
        lemma_pairs_map_dom(pairs, k);
        lemma_pairs_map_dom(new_pairs, k);
        if exists|j: int| 0 <= j < pairs.len() && #[trigger] pairs[j].0 == k {
            let j = choose|j: int| 0 <= j < pairs.len() && #[trigger] pairs[j].0 == k;
            assert(new_pairs[j].0 == k);
        }
        if exists|j: int| 0 <= j < new_pairs.len() && #[trigger] new_pairs[j].0 == k {
            let j = choose|j: int| 0 <= j < new_pairs.len() && #[trigger] new_pairs[j].0 == k;
            assert(pairs[j].0 == k);
        }
    }
    assert forall|k: Seq<char>| m1.contains_key(k) implies m1[k] == m2[k] by {
        lemma_pairs_map_dom(new_pairs, k);
        let j = choose|j: int| 0 <= j < new_pairs.len() && #[trigger] new_pairs[j].0 == k;
        lemma_pairs_map_value(new_pairs, j);
        if j != i {
            lemma_pairs_map_value(pairs, j);
        }
    }
    assert(m1 =~= m2);
}

impl View for AliasMap {
    type V = Map<Seq<char>, Seq<char>>;

    open spec fn view(&self) -> Map<Seq<char>, Seq<char>> {
        pairs_map(self.pairs())
    }
}

/// Everything the alias file holds.
pub struct FileData {
    /// The directory that the aliases' files are relative to.
    pub root_dir: std::path::PathBuf,
    /// Each alias with the file it stands for.
    pub data: AliasMap,
    /// The file that a replacement targets when none is named.
    pub set_file: Option<String>,
    /// Whether files are linked, not copied, by default.
    pub as_sym_link: bool,
    /// Whether nothing is reported by default.
    pub silent: bool,
}

/// What the alias file holds, apart from the root directory.
pub struct FileContents {
    pub data: Map<Seq<char>, Seq<char>>,
    pub set_file: Option<Seq<char>>,
    pub as_sym_link: bool,
    pub silent: bool,
}

impl FileData {
    /// What this data holds, apart from the root directory.
    pub open spec fn contents(self) -> FileContents {
        FileContents {
            data: self.data@,
            set_file: self.set_file.deep_view(),
            as_sym_link: self.as_sym_link,
            silent: self.silent,
        }
    }

    /// Whether a run reports nothing: when `-S` is given, or when silence is
    /// the default and `-V` is not given.
    pub fn is_silent(&self, command_options: &CommandOptions) -> (silent: bool)
        ensures
            silent == ((self.silent && !command_options.has(AppOptions::Verbose))
                || command_options.has(AppOptions::Silent)),
    {
        (self.silent && !command_options.verbose()) || command_options.silent()
    }
}

/// What has been read so far from the alias file: the aliases, the default
/// file, and the flags if a flags record was read.
pub struct LoadState {
    pub data: Map<Seq<char>, Seq<char>>,
    pub set_file: Option<Seq<char>>,
    pub sym_link: Option<bool>,
    pub silent: Option<bool>,
}

/// What reading one more record makes of `state`: a later record replaces
/// what an earlier one of its kind said, and an alias record replaces what
/// its alias stood for.
pub open spec fn apply_record(state: LoadState, value: BinaryValue) -> LoadState {
    match value {
        BinaryValue::SetFile(file) => LoadState { set_file: Some(file), ..state },
        BinaryValue::AliasEntry(alias, path) => LoadState {
            data: state.data.insert(alias, path),
            ..state
        },
        BinaryValue::Flags { sym_link, silent } => LoadState {
            sym_link: Some(sym_link),
            silent: Some(silent),
            ..state
        },
    }
}

/// What reading the records one after the other makes.
pub open spec fn load_records(values: Seq<BinaryValue>) -> LoadState
    decreases values.len(),
{
    if values.len() == 0 {
        LoadState { data: Map::empty(), set_file: None, sym_link: None, silent: None }
    } else {
        apply_record(load_records(values.drop_last()), values.last())
    }
}

/// What an alias file with the bytes `bytes` holds: its records, read up to
/// the first place where no record can be read; the flags are off where no
/// flags record was read.
pub open spec fn loaded_contents(bytes: Seq<u8>) -> FileContents {
    let state = load_records(decode_entries(bytes));
    FileContents {
        data: state.data,
        set_file: state.set_file,
        as_sym_link: match state.sym_link {
            Some(b) => b,
            None => false,
        },
        silent: match state.silent {
            Some(b) => b,
            None => false,
        },
    }
}

/// Reads the alias data of the directory `root_dir` from the bytes of its
/// alias file, or makes empty data where there is no such file (`None`).
pub fn load_file_data(root_dir: std::path::PathBuf, file: Option<Vec<u8>>) -> (data: Result<
    FileData,
    AppError,
>)
    ensures
        data matches Ok(d) && d.root_dir == root_dir && d.contents() == loaded_contents(
            match file {
                Some(bytes) => bytes@,
                None => Seq::<u8>::empty(),
            },
        ),
{
    let ghost bytes = match &file {
        Some(b) => b@,
        None => Seq::<u8>::empty(),
    };
    let mut set_file: Option<String> = None;
    let mut data = AliasMap::new();
    let mut is_sym_link: Option<bool> = None;
    let mut is_silent: Option<bool> = None;
    let mut reader = match file {
        Some(b) => b.binary_data(),
        None => BinaryContainer::new(Vec::new()),
    };
    let ghost all = decode_entries(bytes);
    let ghost mut seen: Seq<BinaryValue> = Seq::empty();
    assert(all =~= seen + decode_entries(reader.remaining()));
    loop
        invariant_except_break
            all == seen + decode_entries(reader.remaining()),
        invariant
            load_records(seen) == (LoadState {
                data: data@,
                set_file: set_file.deep_view(),
                sym_link: is_sym_link,
                silent: is_silent,
            }),
        ensures
            all == seen,
        decreases reader.remaining().len(),
    {
        let ghost rem = reader.remaining();
        proof {
            lemma_decode_entry_consumes(rem);
        }
        match reader.next() {
            None => {
                assert(all =~= seen);
                break ;
            },
            Some(entry) => {
                let ghost value = entry@;
                proof {
                    assert(decode_entries(rem) =~= seq![value] + decode_entries(reader.remaining()));
                    assert(all =~= seen.push(value) + decode_entries(reader.remaining()));
                    assert(seen.push(value).drop_last() =~= seen);
                    seen = seen.push(value);
                }
                match entry {
                    BinaryType::SetFile(file) => {
                        set_file = Some(file);
                    },
                    BinaryType::AliasEntry((alias, path)) => {
                        data.insert(alias, path);
                    },
                    BinaryType::Flags { sym_link, silent } => {
                        is_sym_link = Some(sym_link);
                        is_silent = Some(silent);
                    },
                }
            },
        }
    }
    let as_sym_link = match is_sym_link {
        Some(b) => b,
        None => false,
    };
    let silent = match is_silent {
        Some(b) => b,
        None => false,
    };
    Ok(FileData { root_dir, data, set_file, as_sym_link, silent })
}

/// The records that saving writes, in order: the default file if there is
/// one, the flags if either is on, then each alias.
pub open spec fn saved_records(
    set_file: Option<Seq<char>>,
    as_sym_link: bool,
    silent: bool,
    pairs: Seq<(Seq<char>, Seq<char>)>,
) -> Seq<BinaryValue> {
    head_records(set_file, as_sym_link, silent) + pairs.map_values(
        |p: (Seq<char>, Seq<char>)| BinaryValue::AliasEntry(p.0, p.1),
    )
}

/// Storing one more record appends its bytes.
pub proof fn lemma_encode_values_push(values: Seq<BinaryValue>, value: BinaryValue)
    ensures
        encode_values(values.push(value)) == encode_values(values) + encode_value(value),
    decreases values.len(),
{
    if values.len() == 0 {
        assert(values.push(value).drop_first() =~= Seq::<BinaryValue>::empty());
        assert(values.push(value)[0] == value);
        assert(encode_values(Seq::<BinaryValue>::empty()) =~= Seq::<u8>::empty());
        assert(values =~= Seq::<BinaryValue>::empty());
        assert(encode_values(values.push(value)) =~= encode_value(value));
    } else {
        lemma_encode_values_push(values.drop_first(), value);
        assert(values.push(value).drop_first() =~= values.drop_first().push(value));
        assert(encode_values(values.push(value)) =~= encode_value(values[0]) + encode_values(
            values.drop_first().push(value),
        ));
    }
}

/// The bytes of the alias file that holds `app_data`; its records are those
/// of `saved_records`, the aliases in the order of `pairs`.
pub fn save_file_data(app_data: &FileData) -> (bytes: Vec<u8>)
    ensures
        bytes@ == encode_values(
            saved_records(
                app_data.set_file.deep_view(),
                app_data.as_sym_link,
                app_data.silent,
                app_data.data.pairs(),
            ),
        ),
        keys_distinct(app_data.data.pairs()),
        app_data.data@ == pairs_map(app_data.data.pairs()),
        forall|k: Seq<char>|
            #![trigger app_data.data@.contains_key(k)]
            app_data.data@.contains_key(k) <==> exists|i: int|
                0 <= i < app_data.data.pairs().len() && #[trigger] app_data.data.pairs()[i].0 == k,
        forall|i: int|
            0 <= i < app_data.data.pairs().len() ==> app_data.data@[#[trigger] app_data.data.pairs()[i].0]
                == app_data.data.pairs()[i].1,
{
    proof {
        use_type_invariant(&app_data.data);
        let pairs = app_data.data.pairs();
        assert forall|k: Seq<char>| #![trigger app_data.data@.contains_key(k)]
            app_data.data@.contains_key(k) <==> exists|i: int|
                0 <= i < pairs.len() && #[trigger] pairs[i].0 == k by {
            lemma_pairs_map_dom(pairs, k);
        }
        assert forall|i: int| 0 <= i < pairs.len() implies app_data.data@[#[trigger] pairs[i].0]
            == pairs[i].1 by {
            lemma_pairs_map_value(pairs, i);
        }
    }
    let ghost records = saved_records(
        app_data.set_file.deep_view(),
        app_data.as_sym_link,
        app_data.silent,
        app_data.data.pairs(),
    );
    let mut writer: Vec<u8> = Vec::new();
    let ghost mut written: Seq<BinaryValue> = Seq::empty();
    assert(writer@ =~= encode_values(written));
    match &app_data.set_file {
        Some(file) => {
            let record = BinaryType::SetFile(file.clone());
            proof {
                lemma_encode_values_push(written, record@);
                written = written.push(record@);
            }
            let _ = writer.write_bin(record);
        },
        None => {},
    }
    if app_data.as_sym_link || app_data.silent {
        let record = BinaryType::Flags { sym_link: app_data.as_sym_link, silent: app_data.silent };
        proof {
            lemma_encode_values_push(written, record@);
            written = written.push(record@);
        }
        let _ = writer.write_bin(record);
    }
    let ghost head = written;
    let ghost aliases = app_data.data.pairs().map_values(
        |p: (Seq<char>, Seq<char>)| BinaryValue::AliasEntry(p.0, p.1),
    );
    assert(head + aliases.take(0) =~= head);
    let n = app_data.data.len();
    let mut i: usize = 0;
    while i < n
        invariant
            n == app_data.data.pairs().len(),
            aliases.len() == n,
            aliases == app_data.data.pairs().map_values(
                |p: (Seq<char>, Seq<char>)| BinaryValue::AliasEntry(p.0, p.1),
            ),
            i <= n,
            written == head + aliases.take(i as int),
            writer@ == encode_values(written),
        decreases n - i,
    {
        let (alias, path) = app_data.data.entry(i);
        let record = BinaryType::AliasEntry((alias.clone(), path.clone()));
        assert(record@ == aliases[i as int]);
        proof {
            lemma_encode_values_push(written, record@);
            assert(head + aliases.take(i + 1) =~= written.push(record@));
            written = written.push(record@);
        }
        let _ = writer.write_bin(record);
        i = i + 1;
    }
    assert(aliases.take(n as int) =~= aliases);
    assert(written =~= records);
    writer
}

/// Reading the records of the aliases, after records that hold no alias,
/// gives the map that inserting the aliases one after the other makes.
proof fn lemma_load_aliases(head: Seq<BinaryValue>, pairs: Seq<(Seq<char>, Seq<char>)>, k: int)
    requires
        0 <= k <= pairs.len(),
        load_records(head).data == Map::<Seq<char>, Seq<char>>::empty(),
    ensures
        load_records(
            head + pairs.map_values(
                |p: (Seq<char>, Seq<char>)| BinaryValue::AliasEntry(p.0, p.1),
            ).take(k),
        ) == (LoadState { data: pairs_map(pairs.take(k)), ..load_records(head) }),
    decreases k,
{
    let aliases = pairs.map_values(|p: (Seq<char>, Seq<char>)| BinaryValue::AliasEntry(p.0, p.1));
    if k == 0 {
        assert(head + aliases.take(0) =~= head);
        assert(pairs_map(pairs.take(0)) =~= Map::<Seq<char>, Seq<char>>::empty());
    } else {
        lemma_load_aliases(head, pairs, k - 1);
        assert((head + aliases.take(k)).drop_last() =~= head + aliases.take(k - 1));
        assert(pairs.take(k).drop_last() =~= pairs.take(k - 1));
    }
}

/// The records written before the aliases: the default file, then the flags.
pub open spec fn head_records(set_file: Option<Seq<char>>, as_sym_link: bool, silent: bool) -> Seq<
    BinaryValue,
> {
    (match set_file {
        Some(f) => seq![BinaryValue::SetFile(f)],
        None => seq![],
    }) + (if as_sym_link || silent {
        seq![BinaryValue::Flags { sym_link: as_sym_link, silent }]
    } else {
        seq![]
    })
}

proof fn lemma_load_head(set_file: Option<Seq<char>>, as_sym_link: bool, silent: bool)
    ensures
        load_records(head_records(set_file, as_sym_link, silent)) == (LoadState {
            data: Map::empty(),
            set_file,
            sym_link: if as_sym_link || silent {
                Some(as_sym_link)
            } else {
                None
            },
            silent: if as_sym_link || silent {
                Some(silent)
            } else {
                None
            },
        }),
{
    let head = head_records(set_file, as_sym_link, silent);
    let set_part: Seq<BinaryValue> = match set_file {
        Some(f) => seq![BinaryValue::SetFile(f)],
        None => seq![],
    };
    let empty = Seq::<BinaryValue>::empty();
    assert(load_records(empty) == LoadState {
        data: Map::<Seq<char>, Seq<char>>::empty(),
        set_file: None,
        sym_link: None,
        silent: None,
    });
    if let Some(f) = set_file {
        assert(set_part.drop_last() =~= empty);
        assert(load_records(set_part) == apply_record(load_records(empty), BinaryValue::SetFile(f)));
    } else {
        assert(set_part =~= empty);
    }
    if as_sym_link || silent {
        assert(head.drop_last() =~= set_part);
        assert(head.last() == BinaryValue::Flags { sym_link: as_sym_link, silent });
    } else {
        assert(head =~= set_part);
    }
}

/// Saving alias data and reading the saved bytes back gives the same data,
/// where every text is storable: not empty, and at most 65535 bytes of UTF-8.
pub proof fn lemma_save_load_roundtrip(
    set_file: Option<Seq<char>>,
    as_sym_link: bool,
    silent: bool,
    pairs: Seq<(Seq<char>, Seq<char>)>,
)
    requires
        set_file matches Some(f) ==> storable(f),
        forall|i: int| 0 <= i < pairs.len() ==> storable(#[trigger] pairs[i].0) && storable(pairs[i].1),
    ensures
        loaded_contents(encode_values(saved_records(set_file, as_sym_link, silent, pairs)))
            == (FileContents { data: pairs_map(pairs), set_file, as_sym_link, silent }),
{
    let records = saved_records(set_file, as_sym_link, silent, pairs);
    let aliases = pairs.map_values(|p: (Seq<char>, Seq<char>)| BinaryValue::AliasEntry(p.0, p.1));
    let head = head_records(set_file, as_sym_link, silent);
    assert(records =~= head + aliases);
    assert forall|i: int| 0 <= i < records.len() implies storable_value(#[trigger] records[i]) by {
        if i >= head.len() {
            assert(records[i] == aliases[i - head.len()]);
            assert(storable(pairs[i - head.len()].0));
        }
    }
    lemma_values_roundtrip(records, Seq::empty());
    assert(encode_values(records) + Seq::<u8>::empty() =~= encode_values(records));
    assert(decode_entries(Seq::<u8>::empty()) =~= Seq::<BinaryValue>::empty());
    assert(records + Seq::<BinaryValue>::empty() =~= records);
    assert(decode_entries(encode_values(records)) == records);
    lemma_load_head(set_file, as_sym_link, silent);
    lemma_load_aliases(head, pairs, pairs.len() as int);
    assert(aliases.take(pairs.len() as int) =~= aliases);
    assert(pairs.take(pairs.len() as int) =~= pairs);
    assert(load_records(records).data == pairs_map(pairs));
}

/// Every text of the alias data can be stored and read back.
pub open spec fn storable_data(d: FileData) -> bool {
    &&& d.set_file.deep_view() matches Some(f) ==> storable(f)
    &&& forall|i: int|
        0 <= i < d.data.pairs().len() ==> storable(#[trigger] d.data.pairs()[i].0) && storable(
            d.data.pairs()[i].1,
        )
}

/// What `save_file_data` writes for `d`, `load_file_data` reads back as `d`,
/// where every text of `d` can be stored.
pub proof fn lemma_file_data_roundtrip(d: FileData)
    requires
        storable_data(d),
    ensures
        loaded_contents(
            encode_values(
                saved_records(d.set_file.deep_view(), d.as_sym_link, d.silent, d.data.pairs()),
            ),
        ) == d.contents(),
{
    lemma_save_load_roundtrip(d.set_file.deep_view(), d.as_sym_link, d.silent, d.data.pairs());
}

/// After an alias is made to stand for a file, looking it up gives that
/// file, and every other alias stands for what it stood for before.
pub proof fn lemma_alias_read_after_write(
    aliases: Map<Seq<char>, Seq<char>>,
    alias: Seq<char>,
    file: Seq<char>,
    other: Seq<char>,
)
    ensures
        aliases.insert(alias, file).contains_key(alias),
        aliases.insert(alias, file)[alias] == file,
        other != alias ==> (aliases.insert(alias, file).contains_key(other) <==> aliases.contains_key(
            other,
        )),
        other != alias && aliases.contains_key(other) ==> aliases.insert(alias, file)[other]
            == aliases[other],
{
}

} // verus!
