//! The user's configuration: which program opens which file extension.
use vstd::prelude::*;
use crate::navigator::strs;
use crate::path::{join, join_path, parent, parent_of};
use crate::text::{chars_eq, chars_of};

verus! {

/// Extension-to-program associations, each extension at most once.
pub struct AppConfig {
    pub open_with: Vec<(String, String)>,
}

/// The associations as a map from extension to program.
pub open spec fn assoc_map(v: Seq<(String, String)>) -> Map<Seq<char>, Seq<char>>
    decreases v.len(),
{
    if v.len() == 0 {
        Map::empty()
    } else {
        assoc_map(v.drop_last()).insert(v.last().0@, v.last().1@)
    }
}

/// No extension is listed twice.
pub open spec fn keys_distinct(v: Seq<(String, String)>) -> bool {
    forall|i: int, j: int| 0 <= i < j < v.len() ==> (#[trigger] v[i]).0@ != (#[trigger] v[j]).0@
}

proof fn lemma_assoc_map_lookup(v: Seq<(String, String)>, i: int)
    requires
        keys_distinct(v),
        0 <= i < v.len(),
    ensures
        assoc_map(v).contains_key(v[i].0@),
        assoc_map(v)[v[i].0@] == v[i].1@,
    decreases v.len(),
{
    if i < v.len() - 1 {
        lemma_assoc_map_lookup(v.drop_last(), i);
        assert(v.drop_last()[i] == v[i]);
    }
}

proof fn lemma_assoc_map_absent(v: Seq<(String, String)>, k: Seq<char>)
    requires
        forall|i: int| 0 <= i < v.len() ==> (#[trigger] v[i]).0@ != k,
    ensures
        !assoc_map(v).contains_key(k),
    decreases v.len(),
{
    if v.len() > 0 {
        lemma_assoc_map_absent(v.drop_last(), k);
    }
}

proof fn lemma_assoc_map_update(v: Seq<(String, String)>, i: int, e: (String, String))
    requires
        keys_distinct(v),
        0 <= i < v.len(),
        e.0@ == v[i].0@,
    ensures
        assoc_map(v.update(i, e)) == assoc_map(v).insert(e.0@, e.1@),
    decreases v.len(),
{
    let w = v.update(i, e);
    if i == v.len() - 1 {
        assert(w.drop_last() =~= v.drop_last());
        assert(assoc_map(w) =~= assoc_map(v).insert(e.0@, e.1@));
    } else {
        lemma_assoc_map_update(v.drop_last(), i, e);
        assert(w.drop_last() =~= v.drop_last().update(i, e));
        assert(v.last().0@ != e.0@);
        assert(assoc_map(w) =~= assoc_map(v).insert(e.0@, e.1@));
    }
}

impl AppConfig {
    /// Extensions are distinct.
    pub open spec fn wf(&self) -> bool {
        keys_distinct(self.open_with@)
    }

    /// The configuration as a map.
    pub open spec fn view_map(&self) -> Map<Seq<char>, Seq<char>> {
        assoc_map(self.open_with@)
    }

    /// An empty configuration.
    pub fn new() -> (c: AppConfig)
        ensures
            c.wf(),
            c.view_map() == Map::<Seq<char>, Seq<char>>::empty(),
    {
        AppConfig { open_with: Vec::new() }
    }

    /// Position of `ext` in the associations.
    fn find(&self, ext: &str) -> (r: Option<usize>)
        requires
            self.wf(),
        ensures
            r.is_none() ==> forall|i: int|
                0 <= i < self.open_with@.len() ==> (#[trigger] self.open_with@[i]).0@ != ext@,
            r.is_some() ==> r.unwrap() < self.open_with@.len() && self.open_with@[r.unwrap() as int].0@
                == ext@,
    {
        let e = chars_of(ext);
        for i in 0..self.open_with.len()
            invariant
                e@ == ext@,
                forall|j: int| 0 <= j < i ==> (#[trigger] self.open_with@[j]).0@ != ext@,
        {
            let k = chars_of(self.open_with[i].0.as_str());
            if chars_eq(&k, &e) {
                return Some(i);
            }
        }
        None
    }

    /// The program associated with `ext`, if any.
    pub fn get(&self, ext: &str) -> (r: Option<String>)
        requires
            self.wf(),
        ensures
            r.is_some() == self.view_map().contains_key(ext@),
            r.is_some() ==> r.unwrap()@ == self.view_map()[ext@],
    {
        match self.find(ext) {
            Some(i) => {
                proof {
                    lemma_assoc_map_lookup(self.open_with@, i as int);
                }
                Some(self.open_with[i].1.clone())
            },
            None => {
                proof {
                    lemma_assoc_map_absent(self.open_with@, ext@);
                }
                None
            },
        }
    }

    /// Associates `program` with `ext`, replacing any earlier association.
    pub fn insert(&mut self, ext: String, program: String)
        requires
            old(self).wf(),
        ensures
            final(self).wf(),
            final(self).view_map() == old(self).view_map().insert(ext@, program@),
    {
        match self.find(ext.as_str()) {
            Some(i) => {
                let ghost old_v = self.open_with@;
                let ghost e = (ext, program);
                proof {
                    lemma_assoc_map_update(old_v, i as int, e);
                }
                self.open_with.set(i, (ext, program));
                assert(self.open_with@ =~= old_v.update(i as int, e));
            },
            None => {
                let ghost old_v = self.open_with@;
                self.open_with.push((ext, program));
                proof {
                    assert(self.open_with@.drop_last() =~= old_v);
                }
            },
        }
    }
}

/// What is read after a write is what was written; other extensions keep
/// theirs. (`insert` leaves `after` so; `get` reads `view_map`.)
pub proof fn law_get_after_insert(
    before: AppConfig,
    after: AppConfig,
    ext: Seq<char>,
    program: Seq<char>,
    other: Seq<char>,
)
    requires
        after.view_map() == before.view_map().insert(ext, program),
    ensures
        after.view_map().contains_key(ext),
        after.view_map()[ext] == program,
        other != ext ==> (after.view_map().contains_key(other) == before.view_map().contains_key(other)),
        other != ext && before.view_map().contains_key(other) ==> after.view_map()[other]
            == before.view_map()[other],
{
}

/// Where a configuration file may be, in the order they are tried: next to
/// the program, in the working directory, then `~/.config/rex/config.json`;
/// a place is left out when its directory is unknown.
pub open spec fn config_candidates_spec(
    exe: Option<Seq<char>>,
    cwd: Option<Seq<char>>,
    home: Option<Seq<char>>,
) -> Seq<Seq<char>> {
    (match exe {
        Some(e) => seq![
            join_path(
                match parent_of(e) {
                    Some(d) => d,
                    None => "/"@,
                },
                "config.json"@,
            ),
        ],
        None => Seq::empty(),
    }) + (match cwd {
        Some(c) => seq![join_path(c, "config.json"@)],
        None => Seq::empty(),
    }) + (match home {
        Some(h) => seq![join_path(join_path(join_path(h, ".config"@), "rex"@), "config.json"@)],
        None => Seq::empty(),
    })
}

/// The text of an optional string.
pub open spec fn opt_seq(o: Option<String>) -> Option<Seq<char>> {
    match o {
        Some(s) => Some(s@),
        None => None,
    }
}

fn opt_view(o: &Option<String>) -> (r: Option<&str>)
    ensures
        match o {
            Some(s) => r.is_some() && r.unwrap()@ == s@,
            None => r.is_none(),
        },
{
    match o {
        Some(s) => Some(s.as_str()),
        None => None,
    }
}

/// The places a configuration file may be (see `config_candidates_spec`),
/// given the program's path, the working directory and the home directory.
pub fn config_candidates(exe: Option<String>, cwd: Option<String>, home: Option<String>) -> (r: Vec<String>)
    ensures
        strs(r@) == config_candidates_spec(
            opt_seq(exe),
            opt_seq(cwd),
            opt_seq(home),
        ),
{
    let mut v: Vec<String> = Vec::new();
    let ghost ev = opt_seq(exe);
    let ghost cv = opt_seq(cwd);
    let ghost hv = opt_seq(home);
    match opt_view(&exe) {
        Some(e) => {
            let dir = match parent(e) {
                Some(d) => d,
                None => crate::text::to_owned_string("/"),
            };
            v.push(join(dir.as_str(), "config.json"));
        },
        None => {},
    }
    let ghost a = strs(v@);
    match opt_view(&cwd) {
        Some(c) => {
            v.push(join(c, "config.json"));
        },
        None => {},
    }
    let ghost b = strs(v@);
    match opt_view(&home) {
        Some(h) => {
            let d1 = join(h, ".config");
            let d2 = join(d1.as_str(), "rex");
            v.push(join(d2.as_str(), "config.json"));
        },
        None => {},
    }
    proof {
        let sa = match ev {
            Some(e) => seq![
                join_path(
                    match parent_of(e) {
                        Some(d) => d,
                        None => "/"@,
                    },
                    "config.json"@,
                ),
            ],
            None => Seq::<Seq<char>>::empty(),
        };
        let sb = match cv {
            Some(c) => seq![join_path(c, "config.json"@)],
            None => Seq::<Seq<char>>::empty(),
        };
        let sc = match hv {
            Some(h) => seq![join_path(join_path(join_path(h, ".config"@), "rex"@), "config.json"@)],
            None => Seq::<Seq<char>>::empty(),
        };
        assert(a =~= sa);
        assert(b =~= sa + sb);
        assert(strs(v@) =~= sa + sb + sc);
    }
    v
}

/// The configuration file to use: the first candidate that exists, else
/// `config.json` in the working directory (or a relative `config.json` when
/// that is unknown).
pub open spec fn config_choice(candidates: Seq<Seq<char>>, present: Seq<bool>, cwd: Option<Seq<char>>) -> Seq<char>
    decreases candidates.len(),
{
    if candidates.len() == 0 || present.len() == 0 {
        join_path(
            match cwd {
                Some(c) => c,
                None => Seq::empty(),
            },
            "config.json"@,
        )
    } else if present[0] {
        candidates[0]
    } else {
        config_choice(candidates.drop_first(), present.drop_first(), cwd)
    }
}

/// The configuration file to use (see `config_choice`); `present[i]` tells
/// whether `candidates[i]` exists.
pub fn pick_config_path(candidates: &Vec<String>, present: &Vec<bool>, cwd: Option<String>) -> (r: String)
    ensures
        r@ == config_choice(
            strs(candidates@),
            present@,
            opt_seq(cwd),
        ),
{
    let ghost cv = opt_seq(cwd);
    let n = if candidates.len() < present.len() {
        candidates.len()
    } else {
        present.len()
    };
    let mut i: usize = 0;
    assert(strs(candidates@).skip(0) =~= strs(candidates@));
    assert(present@.skip(0) =~= present@);
    while i < n
        invariant
            n <= candidates@.len(),
            n <= present@.len(),
            n == candidates@.len() || n == present@.len(),
            cv == opt_seq(cwd),
            i <= n,
            config_choice(strs(candidates@), present@, cv) == config_choice(
                strs(candidates@).skip(i as int),
                present@.skip(i as int),
                cv,
            ),
        decreases n - i,
    {
        if present[i] {
            proof {
                assert(strs(candidates@).skip(i as int)[0] == candidates@[i as int]@);
                assert(present@.skip(i as int)[0]);
                assert(strs(candidates@).skip(i as int).len() > 0);
                assert(config_choice(strs(candidates@).skip(i as int), present@.skip(i as int), cv)
                    == candidates@[i as int]@);
            }
            let r = candidates[i].clone();
            return r;
        }
        proof {
            assert(strs(candidates@).skip(i as int).drop_first() =~= strs(candidates@).skip(i + 1));
            assert(present@.skip(i as int).drop_first() =~= present@.skip(i + 1));
        }
        i = i + 1;
    }
    proof {
        assert(strs(candidates@).skip(i as int).len() == 0 || present@.skip(i as int).len() == 0);
    }
    let base = match opt_view(&cwd) {
        Some(c) => crate::text::to_owned_string(c),
        None => String::new(),
    };
    join(base.as_str(), "config.json")
}

} // verus!
