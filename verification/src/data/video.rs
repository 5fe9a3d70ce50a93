use super::data::PixivData;
use vstd::prelude::*;

verus! {

/// The metadata of the video made of an animation, in order: its `title`,
/// its `artist` and its `comment`, those the data has. The comment is the
/// description as the description parser made it over
/// (`parsed_description`), or the description itself when the parser gave
/// nothing.
pub open spec fn video_metas(
    title: Option<Seq<char>>,
    author: Option<Seq<char>>,
    description: Option<Seq<char>>,
    parsed_description: Option<Seq<char>>,
) -> Seq<(Seq<char>, Seq<char>)> {
    let a = match title {
        Some(t) => seq![("title"@, t)],
        None => seq![],
    };
    let b = match author {
        Some(x) => a.push(("artist"@, x)),
        None => a,
    };
    match description {
        Some(d) => b.push(
            (
                "comment"@,
                match parsed_description {
                    Some(p) => p,
                    None => d,
                },
            ),
        ),
        None => b,
    }
}

/// The view of a list of metadata entries.
pub open spec fn metas_view(v: Seq<(String, String)>) -> Seq<(Seq<char>, Seq<char>)> {
    v.map_values(|e: (String, String)| (e.0@, e.1@))
}

/// The metadata of the video made of an animation, from the data of the
/// artwork: the title, the artist and the comment, those it has. The
/// comment is `parsed_description`, what the description parser made of
/// the description, when it made something, else the description.
pub fn get_video_metas(data: &PixivData, parsed_description: Option<&str>) -> (r: Vec<
    (String, String),
>)
    ensures
        metas_view(r@) == video_metas(
            data@.title,
            data@.author,
            data@.description,
            match parsed_description {
                Some(p) => Some(p@),
                None => None,
            },
        ),
{
    let mut m: Vec<(String, String)> = Vec::new();
    if let Some(t) = &data.title {
        m.push((String::from_str("title"), t.clone()));
    }
    let ghost a = m@;
    if let Some(au) = &data.author {
        m.push((String::from_str("artist"), au.clone()));
    }
    let ghost b = m@;
    if let Some(desc) = &data.description {
        let des = match parsed_description {
            Some(p) => String::from_str(p),
            None => desc.clone(),
        };
        m.push((String::from_str("comment"), des));
    }
    proof {
        assert(metas_view(a) =~= match data@.title {
            Some(t) => seq![("title"@, t)],
            None => seq![],
        });
        assert(metas_view(b) =~= match data@.author {
            Some(x) => metas_view(a).push(("artist"@, x)),
            None => metas_view(a),
        });
        assert(metas_view(m@) =~= match data@.description {
            Some(d) => metas_view(b).push(
                (
                    "comment"@,
                    match parsed_description {
                        Some(p) => p@,
                        None => d,
                    },
                ),
            ),
            None => metas_view(b),
        });
    }
    m
}

} // verus!
