use vstd::prelude::*;

verus! {

/// The model of splitting a character sequence at every `/`.
///
/// Splitting never drops characters: adjacent separators and separators at
/// either end produce empty segments, so the result always has one more
/// segment than the string has separators.
pub open spec fn spec_split(s: Seq<char>) -> Seq<Seq<char>>
    decreases s.len(),
{
    if s.len() == 0 {
        seq![Seq::<char>::empty()]
    } else if s[0] == '/' {
        seq![Seq::<char>::empty()] + spec_split(s.subrange(1, s.len() as int))
    } else {
        let rest = spec_split(s.subrange(1, s.len() as int));
        seq![seq![s[0]] + rest[0]] + rest.subrange(1, rest.len() as int)
    }
}

/// A split always yields at least one segment.
pub proof fn lemma_split_nonempty(s: Seq<char>)
    ensures
        spec_split(s).len() >= 1,
    decreases s.len(),
{
    if s.len() == 0 {
    } else {
        lemma_split_nonempty(s.subrange(1, s.len() as int));
    }
}

/// Appending one character extends the split: a separator opens a new empty
/// segment, any other character grows the last segment.
pub proof fn lemma_split_push(s: Seq<char>, c: char)
    ensures
        c == '/' ==> spec_split(s.push(c)) == spec_split(s).push(Seq::<char>::empty()),
        c != '/' ==> spec_split(s.push(c)) == spec_split(s).update(
            spec_split(s).len() - 1,
            spec_split(s).last().push(c),
        ),
    decreases s.len(),
{
    lemma_split_nonempty(s);
    let v = s.push(c);
    if s.len() == 0 {
        assert(v.subrange(1, v.len() as int) =~= Seq::<char>::empty());
        assert(spec_split(Seq::<char>::empty()) == seq![Seq::<char>::empty()]);
        if c == '/' {
            assert(spec_split(v) =~~= spec_split(s).push(Seq::<char>::empty()));
        } else {
            assert(seq![v[0]] + spec_split(Seq::<char>::empty())[0] =~= spec_split(
                s,
            ).last().push(c));
            assert(spec_split(v) =~~= spec_split(s).update(0, spec_split(s).last().push(c)));
        }
    } else {
        let s1 = s.subrange(1, s.len() as int);
        lemma_split_nonempty(s1);
        assert(v.subrange(1, v.len() as int) =~= s1.push(c));
        lemma_split_push(s1, c);
        let rest = spec_split(s1);
        let rest_v = spec_split(s1.push(c));
        if s[0] == '/' {
            if c == '/' {
                assert(spec_split(v) =~~= spec_split(s).push(Seq::<char>::empty()));
            } else {
                assert(spec_split(v) =~~= spec_split(s).update(
                    spec_split(s).len() - 1,
                    spec_split(s).last().push(c),
                ));
            }
        } else {
            if c == '/' {
                assert(rest_v[0] == rest[0]);
                assert(rest_v.subrange(1, rest_v.len() as int) =~~= rest.subrange(
                    1,
                    rest.len() as int,
                ).push(Seq::<char>::empty()));
                assert(spec_split(v) =~~= spec_split(s).push(Seq::<char>::empty()));
            } else {
                let k = rest.len() - 1;
                if k == 0 {
                    assert(rest_v[0] == rest[0].push(c));
                    assert(spec_split(v) =~~= spec_split(s).update(
                        spec_split(s).len() - 1,
                        spec_split(s).last().push(c),
                    ));
                } else {
                    assert(rest_v[0] == rest[0]);
                    assert(rest_v.subrange(1, rest_v.len() as int) =~~= rest.subrange(
                        1,
                        rest.len() as int,
                    ).update(k - 1, rest[k].push(c)));
                    assert(spec_split(s).len() == rest.len());
                    assert(spec_split(s).last() == rest[k]);
                    assert(spec_split(v) =~~= spec_split(s).update(
                        spec_split(s).len() - 1,
                        spec_split(s).last().push(c),
                    ));
                }
            }
        }
    }
}

/// Character-for-character string comparison.
pub fn str_eq(a: &str, b: &str) -> (r: bool)
    ensures
        r == (a@ == b@),
{
    let na = a.unicode_len();
    let nb = b.unicode_len();
    if na != nb {
        return false;
    }
    let mut i: usize = 0;
    while i < na
        invariant
            i <= na,
            na == a@.len(),
            na == b@.len(),
            forall|j: int| 0 <= j < i ==> a@[j] == b@[j],
        decreases na - i,
    {
        if a.get_char(i) != b.get_char(i) {
            return false;
        }
        i = i + 1;
    }
    proof {
        assert(a@ =~= b@);
    }
    true
}

/// Splits a topic into its `/`-separated segments.
pub fn split_slash<'a>(s: &'a str) -> (parts: Vec<&'a str>)
    ensures
        parts@.map_values(|p: &str| p@) == spec_split(s@),
{
    let n = s.unicode_len();
    let mut parts: Vec<&'a str> = Vec::new();
    let mut seg_start: usize = 0;
    let mut i: usize = 0;
    proof {
        assert(s@.subrange(0, 0) =~= Seq::<char>::empty());
        assert(parts@.map_values(|p: &str| p@).push(s@.subrange(0, 0)) =~~= spec_split(
            s@.subrange(0, 0),
        ));
    }
    while i < n
        invariant
            seg_start <= i <= n,
            n == s@.len(),
            parts@.map_values(|p: &str| p@).push(s@.subrange(seg_start as int, i as int))
                == spec_split(s@.subrange(0, i as int)),
        decreases n - i,
    {
        let ghost prefix = s@.subrange(0, i as int);
        let c = s.get_char(i);
        proof {
            lemma_split_push(prefix, c);
            lemma_split_nonempty(prefix);
            assert(s@.subrange(0, i + 1) =~= prefix.push(c));
        }
        if c == '/' {
            let seg = s.substring_char(seg_start, i);
            parts.push(seg);
            seg_start = i + 1;
            proof {
                assert(parts@.map_values(|p: &str| p@) =~~= spec_split(prefix));
                assert(s@.subrange(seg_start as int, i + 1) =~= Seq::<char>::empty());
                assert(parts@.map_values(|p: &str| p@).push(
                    s@.subrange(seg_start as int, i + 1),
                ) =~~= spec_split(s@.subrange(0, i + 1)));
            }
        } else {
            proof {
                assert(s@.subrange(seg_start as int, i + 1) =~= s@.subrange(
                    seg_start as int,
                    i as int,
                ).push(c));
                assert(parts@.map_values(|p: &str| p@).push(
                    s@.subrange(seg_start as int, i + 1),
                ) =~~= spec_split(s@.subrange(0, i + 1)));
            }
        }
        i = i + 1;
    }
    let seg = s.substring_char(seg_start, n);
    parts.push(seg);
    proof {
        assert(s@.subrange(0, n as int) =~= s@);
        assert(parts@.map_values(|p: &str| p@) =~~= spec_split(s@));
    }
    parts
}

/// Extracts the I/O name from an MQTT topic.
///
/// The topic is split at `/`; a topic of at least four segments names the
/// I/O in its third segment, any shorter topic names none.
pub fn io_name_from_mqtt_topic(topic: &str) -> (r: Option<&str>)
    ensures
        match r {
            Some(name) => spec_split(topic@).len() >= 4 && name@ == spec_split(topic@)[2],
            None => spec_split(topic@).len() < 4,
        },
{
    let parts = split_slash(topic);
    if parts.len() >= 4 {
        proof {
            assert(parts@.map_values(|p: &str| p@)[2] == parts@[2]@);
        }
        Some(parts[2])
    } else {
        None
    }
}

/// The state topic for one I/O name.
pub open spec fn spec_state_topic(io_name: Seq<char>) -> Seq<char> {
    "hmd/switch/"@ + io_name + "/state"@
}

/// The command topic for one I/O name.
pub open spec fn spec_command_topic(io_name: Seq<char>) -> Seq<char> {
    "hmd/switch/"@ + io_name + "/command"@
}

/// Creates the MQTT state topic from an I/O name.
pub fn mqtt_state_topic_from_io_name(io_name: &str) -> (t: String)
    ensures
        t@ == spec_state_topic(io_name@),
{
    let mut t = String::from_str("hmd/switch/");
    t.append(io_name);
    t.append("/state");
    t
}

/// Creates the MQTT command topic from an I/O name.
pub fn mqtt_command_topic_from_io_name(io_name: &str) -> (t: String)
    ensures
        t@ == spec_command_topic(io_name@),
{
    let mut t = String::from_str("hmd/switch/");
    t.append(io_name);
    t.append("/command");
    t
}

} // verus!
