use vstd::prelude::*;

use crate::app::App;
use crate::config::{FileAssociationView, ProtocolAssociation, ProtocolAssociationView,
    FileAssociation};
use crate::environment::Platform;
use crate::error::Error;
use crate::utils::{filesafe_map, seq_all_safe};

verus! {

broadcast use vstd::string::group_string_axioms;

/// One desktop-entry line.
pub open spec fn entry_line(e: (Seq<char>, Seq<char>)) -> Seq<char> {
    e.0 + "="@ + e.1 + "\n"@
}

/// The `Key=Value` lines of the given entries, in order.
pub open spec fn render_entries(es: Seq<(Seq<char>, Seq<char>)>) -> Seq<char>
    decreases es.len(),
{
    if es.len() == 0 {
        Seq::empty()
    } else {
        entry_line(es[0]) + render_entries(es.drop_first())
    }
}

/// A whole desktop-entry file: the group header, then the entries.
pub open spec fn desktop_text(es: Seq<(Seq<char>, Seq<char>)>) -> Seq<char> {
    "[Desktop Entry]\n"@ + render_entries(es)
}

/// The items joined with `;` between them.
pub open spec fn join_semi(items: Seq<Seq<char>>) -> Seq<char>
    decreases items.len(),
{
    if items.len() == 0 {
        Seq::empty()
    } else if items.len() == 1 {
        items[0]
    } else {
        items[0] + ";"@ + join_semi(items.drop_first())
    }
}

/// The shapes of a sequence of strings.
pub open spec fn views_of_strings(s: Seq<String>) -> Seq<Seq<char>> {
    Seq::new(s.len(), |i: int| s[i]@)
}

/// The shapes of a sequence of string pairs.
pub open spec fn views_of_kvs(s: Seq<(String, String)>) -> Seq<(Seq<char>, Seq<char>)> {
    Seq::new(s.len(), |i: int| (s[i].0@, s[i].1@))
}

/// The shapes of a sequence of protocol associations.
pub open spec fn views_of_protocols(s: Seq<ProtocolAssociation>) -> Seq<ProtocolAssociationView> {
    Seq::new(s.len(), |i: int| s[i]@)
}

/// The shapes of a sequence of file associations.
pub open spec fn views_of_assocs(s: Seq<FileAssociation>) -> Seq<FileAssociationView> {
    Seq::new(s.len(), |i: int| s[i]@)
}

/// A scheme's handler MIME name.
pub open spec fn scheme_mime(s: Seq<char>) -> Seq<char> {
    "x-scheme-handler/"@ + s
}

/// The handler MIME names of a scheme list, in order.
pub open spec fn map_schemes(ss: Seq<Seq<char>>) -> Seq<Seq<char>> {
    Seq::new(ss.len(), |i: int| scheme_mime(ss[i]))
}

/// The handler MIME names of every scheme of every protocol, in order.
pub open spec fn scheme_mimes(ps: Seq<ProtocolAssociationView>) -> Seq<Seq<char>>
    decreases ps.len(),
{
    if ps.len() == 0 {
        Seq::empty()
    } else {
        map_schemes(ps[0].schemes) + scheme_mimes(ps.drop_first())
    }
}

/// The MIME types the file associations declare, in order.
pub open spec fn assoc_mimes(fs: Seq<FileAssociationView>) -> Seq<Seq<char>>
    decreases fs.len(),
{
    if fs.len() == 0 {
        Seq::empty()
    } else {
        (match fs[0].mime_type {
            Some(m) => seq![m],
            None => Seq::empty(),
        }) + assoc_mimes(fs.drop_first())
    }
}

/// Every MIME name the desktop entry registers: scheme handlers first,
/// then file-association types.
pub open spec fn mimes_spec(app: App, platform: Platform) -> Seq<Seq<char>> {
    scheme_mimes(views_of_protocols(app.config.protocols_spec(platform))) + assoc_mimes(
        views_of_assocs(app.config.file_associations_spec(platform)),
    )
}

/// The desktop-entry lines for an app, in their fixed order: `Name`,
/// `Exec`, `Terminal`, `Type`, `Icon`, the configured extra entries,
/// then `Comment`, `MimeType` and `Categories` where each has content.
pub open spec fn desktop_entries_spec(app: App, platform: Platform) -> Seq<
    (Seq<char>, Seq<char>),
> {
    let exec = filesafe_map(app.executable_source_spec(platform));
    let head = seq![
        ("Name"@, app.product_name_spec(platform)),
        ("Exec"@, "/usr/bin/"@ + exec + " %U"@),
        ("Terminal"@, "false"@),
        ("Type"@, "Application"@),
        ("Icon"@, exec),
    ];
    let props = match app.config.desktop_properties_spec(platform) {
        Some(d) => views_of_kvs(d),
        None => Seq::empty(),
    };
    let comment = match app.description_spec(platform) {
        Some(d) => seq![("Comment"@, d)],
        None => Seq::empty(),
    };
    let mimes = mimes_spec(app, platform);
    let mime_entry: Seq<(Seq<char>, Seq<char>)> = if mimes.len() > 0 {
        seq![("MimeType"@, join_semi(mimes))]
    } else {
        Seq::empty()
    };
    let cats = views_of_strings(app.config.categories_spec(platform));
    let cat_entry: Seq<(Seq<char>, Seq<char>)> = if cats.len() > 0 {
        seq![("Categories"@, join_semi(cats))]
    } else {
        Seq::empty()
    };
    head + props + comment + mime_entry + cat_entry
}

pub broadcast proof fn lemma_views_of_kvs_push(s: Seq<(String, String)>, p: (String, String))
    ensures
        #[trigger] views_of_kvs(s.push(p)) == views_of_kvs(s).push((p.0@, p.1@)),
{
    assert(views_of_kvs(s.push(p)) =~= views_of_kvs(s).push((p.0@, p.1@)));
}

pub broadcast proof fn lemma_views_of_strings_push(s: Seq<String>, p: String)
    ensures
        #[trigger] views_of_strings(s.push(p)) == views_of_strings(s).push(p@),
{
    assert(views_of_strings(s.push(p)) =~= views_of_strings(s).push(p@));
}

proof fn lemma_render_snoc(es: Seq<(Seq<char>, Seq<char>)>, e: (Seq<char>, Seq<char>))
    ensures
        render_entries(es.push(e)) == render_entries(es) + entry_line(e),
    decreases es.len(),
{
    if es.len() == 0 {
        reveal_with_fuel(render_entries, 2);
        assert(es.push(e).drop_first() =~= Seq::<(Seq<char>, Seq<char>)>::empty());
        assert(render_entries(es.push(e)) =~= entry_line(e));
        assert(render_entries(es) + entry_line(e) =~= entry_line(e));
    } else {
        lemma_render_snoc(es.drop_first(), e);
        assert(es.push(e).drop_first() =~= es.drop_first().push(e));
        assert(render_entries(es.push(e)) =~= render_entries(es) + entry_line(e));
    }
}

proof fn lemma_scheme_mimes_snoc(ps: Seq<ProtocolAssociationView>, p: ProtocolAssociationView)
    ensures
        scheme_mimes(ps.push(p)) == scheme_mimes(ps) + map_schemes(p.schemes),
    decreases ps.len(),
{
    if ps.len() == 0 {
        reveal_with_fuel(scheme_mimes, 2);
        assert(ps.push(p).drop_first() =~= Seq::<ProtocolAssociationView>::empty());
        assert(scheme_mimes(ps.push(p)) =~= map_schemes(p.schemes));
        assert(scheme_mimes(ps) + map_schemes(p.schemes) =~= map_schemes(p.schemes));
    } else {
        lemma_scheme_mimes_snoc(ps.drop_first(), p);
        assert(ps.push(p).drop_first() =~= ps.drop_first().push(p));
        assert(scheme_mimes(ps.push(p)) =~= scheme_mimes(ps) + map_schemes(p.schemes));
    }
}

proof fn lemma_assoc_mimes_snoc(fs: Seq<FileAssociationView>, f: FileAssociationView)
    ensures
        assoc_mimes(fs.push(f)) == assoc_mimes(fs) + (match f.mime_type {
            Some(m) => seq![m],
            None => Seq::<Seq<char>>::empty(),
        }),
    decreases fs.len(),
{
    let tail = match f.mime_type {
        Some(m) => seq![m],
        None => Seq::<Seq<char>>::empty(),
    };
    if fs.len() == 0 {
        reveal_with_fuel(assoc_mimes, 2);
        assert(fs.push(f).drop_first() =~= Seq::<FileAssociationView>::empty());
        assert(assoc_mimes(fs.push(f)) =~= tail);
        assert(assoc_mimes(fs) + tail =~= tail);
    } else {
        lemma_assoc_mimes_snoc(fs.drop_first(), f);
        assert(fs.push(f).drop_first() =~= fs.drop_first().push(f));
        assert(assoc_mimes(fs.push(f)) =~= assoc_mimes(fs) + tail);
    }
}

proof fn lemma_join_push(s: Seq<Seq<char>>, x: Seq<char>)
    requires
        s.len() >= 1,
    ensures
        join_semi(s.push(x)) == join_semi(s) + ";"@ + x,
    decreases s.len(),
{
    if s.len() == 1 {
        reveal_with_fuel(join_semi, 2);
        assert(s.push(x).drop_first() =~= seq![x]);
        assert(join_semi(s.push(x)) =~= s[0] + ";"@ + x);
    } else {
        lemma_join_push(s.drop_first(), x);
        assert(s.push(x).drop_first() =~= s.drop_first().push(x));
        assert(join_semi(s.push(x)) =~= join_semi(s) + ";"@ + x);
    }
}

/// The items joined with `;` between them.
#[verifier::loop_isolation(false)]
fn join_semi_exec(items: &Vec<String>) -> (r: String)
    ensures
        r@ == join_semi(views_of_strings(items@)),
{
    let ghost dv = views_of_strings(items@);
    let n = items.len();
    if n == 0 {
        let r = String::new();
        proof {
            assert(r@ =~= join_semi(dv));
        }
        return r;
    }
    let mut out = items[0].clone();
    proof {
        assert(dv.take(1) =~= seq![items@[0]@]);
        assert(out@ =~= join_semi(dv.take(1)));
    }
    let mut i: usize = 1;
    while i < n
        invariant
            1 <= i <= n,
            out@ == join_semi(dv.take(i as int)),
        decreases n - i,
    {
        out.append(";");
        out.append(items[i].as_str());
        proof {
            lemma_join_push(dv.take(i as int), dv[i as int]);
            assert(dv.take(i + 1 as int) =~= dv.take(i as int).push(dv[i as int]));
        }
        i += 1;
    }
    proof {
        assert(dv.take(n as int) =~= dv);
    }
    out
}

/// Every MIME name the desktop entry registers, in order.
#[verifier::loop_isolation(false)]
fn collect_mimes(app: &App, platform: Platform) -> (r: Vec<String>)
    ensures
        views_of_strings(r@) == mimes_spec(*app, platform),
{
    broadcast use lemma_views_of_strings_push;

    let mut mimes: Vec<String> = Vec::new();
    let protocols = app.config().protocol_associations(platform);
    let ghost pviews = views_of_protocols(app.config.protocols_spec(platform));
    proof {
        assert(views_of_strings(mimes@) =~= scheme_mimes(pviews.take(0)));
    }
    let np = protocols.len();
    let mut i: usize = 0;
    while i < np
        invariant
            i <= np,
            np == protocols.len(),
            protocols@ == app.config.protocols_spec(platform),
            views_of_strings(mimes@) == scheme_mimes(pviews.take(i as int)),
        decreases np - i,
    {
        let schemes = &protocols[i].schemes;
        let ghost sviews = protocols@[i as int]@.schemes;
        let ns = schemes.len();
        let mut j: usize = 0;
        proof {
            assert(map_schemes(sviews).take(0) =~= Seq::<Seq<char>>::empty());
            assert(views_of_strings(mimes@) =~= scheme_mimes(pviews.take(i as int))
                + map_schemes(sviews).take(0));
        }
        while j < ns
            invariant
                j <= ns,
                ns == schemes.len(),
                schemes == &protocols@[i as int].schemes,
                i < np,
                np == protocols.len(),
                protocols@ == app.config.protocols_spec(platform),
                sviews == protocols@[i as int]@.schemes,
                views_of_strings(mimes@) == scheme_mimes(pviews.take(i as int)) + map_schemes(
                    sviews,
                ).take(j as int),
            decreases ns - j,
        {
            let mut m = "x-scheme-handler/".to_owned();
            m.append(schemes[j].as_str());
            proof {
                assert(m@ == scheme_mime(sviews[j as int]));
                assert(map_schemes(sviews)[j as int] == scheme_mime(sviews[j as int]));
            }
            mimes.push(m);
            proof {
                assert(map_schemes(sviews).take(j + 1 as int) =~= map_schemes(sviews).take(
                    j as int,
                ).push(map_schemes(sviews)[j as int]));
                assert((scheme_mimes(pviews.take(i as int)) + map_schemes(sviews).take(j as int))
                    .push(map_schemes(sviews)[j as int]) =~= scheme_mimes(pviews.take(i as int))
                    + map_schemes(sviews).take(j + 1 as int));
            }
            j += 1;
        }
        proof {
            lemma_scheme_mimes_snoc(pviews.take(i as int), pviews[i as int]);
            assert(pviews.take(i + 1 as int) =~= pviews.take(i as int).push(pviews[i as int]));
            assert(map_schemes(sviews).take(ns as int) =~= map_schemes(sviews));
            assert(sviews =~= pviews[i as int].schemes);
        }
        i += 1;
    }
    proof {
        assert(pviews.take(np as int) =~= pviews);
    }

    let assocs = app.config().file_associations(platform);
    let ghost aviews = views_of_assocs(app.config.file_associations_spec(platform));
    proof {
        assert(aviews.take(0) =~= Seq::<FileAssociationView>::empty());
        assert(views_of_strings(mimes@) =~= scheme_mimes(pviews) + assoc_mimes(aviews.take(0)));
    }
    let na = assocs.len();
    let mut k: usize = 0;
    while k < na
        invariant
            k <= na,
            na == assocs.len(),
            assocs@ == app.config.file_associations_spec(platform),
            views_of_strings(mimes@) == scheme_mimes(pviews) + assoc_mimes(aviews.take(k as int)),
        decreases na - k,
    {
        proof {
            lemma_assoc_mimes_snoc(aviews.take(k as int), aviews[k as int]);
            assert(aviews.take(k + 1 as int) =~= aviews.take(k as int).push(aviews[k as int]));
        }
        match &assocs[k].mime_type {
            Some(mt) => {
                let m = mt.clone();
                proof {
                    assert(aviews[k as int].mime_type == Some(m@));
                }
                mimes.push(m);
                proof {
                    assert((scheme_mimes(pviews) + assoc_mimes(aviews.take(k as int))).push(m@)
                        =~= scheme_mimes(pviews) + assoc_mimes(aviews.take(k + 1 as int)));
                }
            },
            None => {
                proof {
                    assert(aviews[k as int].mime_type is None);
                    assert(assoc_mimes(aviews.take(k + 1 as int)) =~= assoc_mimes(aviews.take(
                        k as int,
                    )));
                }
            },
        }
        k += 1;
    }
    proof {
        assert(aviews.take(na as int) =~= aviews);
        assert(views_of_strings(mimes@) =~= mimes_spec(*app, platform));
    }
    mimes
}

/// The whole desktop-entry text for the given entries.
#[verifier::loop_isolation(false)]
fn render_exec(entries: &Vec<(String, String)>) -> (r: String)
    ensures
        r@ == desktop_text(views_of_kvs(entries@)),
{
    let mut contents = "[Desktop Entry]\n".to_owned();
    let ghost all = views_of_kvs(entries@);
    proof {
        assert(all.take(0) =~= Seq::<(Seq<char>, Seq<char>)>::empty());
    }
    let n = entries.len();
    let mut t: usize = 0;
    while t < n
        invariant
            t <= n,
            n == entries.len(),
            all == views_of_kvs(entries@),
            contents@ == "[Desktop Entry]\n"@ + render_entries(all.take(t as int)),
        decreases n - t,
    {
        contents.append(entries[t].0.as_str());
        contents.append("=");
        contents.append(entries[t].1.as_str());
        contents.append("\n");
        proof {
            lemma_render_snoc(all.take(t as int), all[t as int]);
            assert(all.take(t + 1 as int) =~= all.take(t as int).push(all[t as int]));
        }
        t += 1;
    }
    proof {
        assert(all.take(n as int) =~= all);
    }
    contents
}

/// Builds a freedesktop desktop-entry file for an app.
pub struct DesktopGenerator {
    pub entries: Vec<(String, String)>,
}

impl DesktopGenerator {
    /// A generator with no entries yet.
    pub fn new() -> (r: DesktopGenerator)
        ensures
            r.entries@ =~= Seq::<(String, String)>::empty(),
    {
        DesktopGenerator { entries: Vec::new() }
    }

    /// Appends one `Key=Value` line.
    pub fn add_entry(&mut self, key: String, val: String)
        ensures
            final(self).entries@ == old(self).entries@.push((key, val)),
    {
        self.entries.push((key, val));
    }

    /// The full desktop-entry text for the app: the fixed lines, the
    /// configured additions, and the content-bearing optional lines,
    /// appended to whatever entries the generator already held.
    #[verifier::loop_isolation(false)]
    #[verifier::rlimit(100)]
    pub fn generate(self, app: &App, platform: Platform) -> (r: Result<String, Error>)
        ensures
            match r {
                Ok(o) => {
                    &&& seq_all_safe(filesafe_map(app.executable_source_spec(platform)))
                    &&& filesafe_map(app.executable_source_spec(platform)).len() > 0
                    &&& o@ == desktop_text(
                        views_of_kvs(self.entries@) + desktop_entries_spec(*app, platform),
                    )
                },
                Err(e) => {
                    &&& (!seq_all_safe(filesafe_map(app.executable_source_spec(platform)))
                        || filesafe_map(app.executable_source_spec(platform)).len() == 0)
                    &&& (e matches Error::InvalidPackageName(n) && n@ == app.executable_source_spec(
                        platform,
                    ))
                },
            },
    {
        let mut this = self;
        let ghost base = views_of_kvs(this.entries@);
        let exec_name = app.executable_name(platform)?;
        let ghost spec_entries = desktop_entries_spec(*app, platform);

        this.add_entry("Name".to_owned(), app.product_name(platform).clone());
        let mut exec_line = "/usr/bin/".to_owned();
        exec_line.append(exec_name.as_str());
        exec_line.append(" %U");
        this.add_entry("Exec".to_owned(), exec_line);
        this.add_entry("Terminal".to_owned(), "false".to_owned());
        this.add_entry("Type".to_owned(), "Application".to_owned());
        this.add_entry("Icon".to_owned(), exec_name);

        let ghost head_done = views_of_kvs(this.entries@);
        proof {
            assert(head_done =~= base + spec_entries.take(5));
        }

        let ghost props_views = match app.config.desktop_properties_spec(platform) {
            Some(d) => views_of_kvs(d),
            None => Seq::<(Seq<char>, Seq<char>)>::empty(),
        };
        match app.config().desktop_properties(platform) {
            Some(props) => {
                let n = props.len();
                let mut i: usize = 0;
                while i < n
                    invariant
                        i <= n,
                        n == props.len(),
                        props@ == app.config.desktop_properties_spec(platform)->0,
                        views_of_kvs(this.entries@) == head_done + props_views.take(i as int),
                    decreases n - i,
                {
                    let ghost before = this.entries@;
                    this.add_entry(props[i].0.clone(), props[i].1.clone());
                    proof {
                        lemma_views_of_kvs_push(
                            before,
                            (props@[i as int].0, props@[i as int].1),
                        );
                        assert(props_views.take(i + 1 as int) =~= props_views.take(i as int).push(
                            props_views[i as int],
                        ));
                        assert(views_of_kvs(this.entries@) =~= head_done + props_views.take(
                            i + 1 as int,
                        ));
                    }
                    i += 1;
                }
                proof {
                    assert(props_views.take(n as int) =~= props_views);
                }
            },
            None => {},
        }
        let ghost props_done = views_of_kvs(this.entries@);
        proof {
            assert(props_done =~= head_done + props_views);
        }

        let ghost comment_seg: Seq<(Seq<char>, Seq<char>)> = match app.description_spec(platform) {
            Some(d) => seq![("Comment"@, d)],
            None => Seq::empty(),
        };
        match app.description(platform) {
            Some(c) => {
                let ghost before = this.entries@;
                let comment = c.clone();
                this.add_entry("Comment".to_owned(), comment);
                proof {
                    lemma_views_of_kvs_push(before, this.entries@.last());
                    assert(views_of_kvs(this.entries@) =~= props_done + comment_seg);
                }
            },
            None => {
                proof {
                    assert(views_of_kvs(this.entries@) =~= props_done + comment_seg);
                }
            },
        }
        let ghost comment_done = views_of_kvs(this.entries@);

        let mimes = collect_mimes(app, platform);
        let ghost mime_seg: Seq<(Seq<char>, Seq<char>)> = if mimes_spec(*app, platform).len()
            > 0 {
            seq![("MimeType"@, join_semi(mimes_spec(*app, platform)))]
        } else {
            Seq::empty()
        };
        if mimes.len() > 0 {
            let ghost before = this.entries@;
            let joined = join_semi_exec(&mimes);
            this.add_entry("MimeType".to_owned(), joined);
            proof {
                lemma_views_of_kvs_push(before, this.entries@.last());
                assert(views_of_kvs(this.entries@) =~= comment_done + mime_seg);
            }
        } else {
            proof {
                assert(mimes_spec(*app, platform).len() == 0);
                assert(views_of_kvs(this.entries@) =~= comment_done + mime_seg);
            }
        }
        let ghost mimes_done = views_of_kvs(this.entries@);

        let categories = app.config().desktop_categories(platform);
        let ghost cviews = views_of_strings(app.config.categories_spec(platform));
        let ghost cat_seg: Seq<(Seq<char>, Seq<char>)> = if cviews.len() > 0 {
            seq![("Categories"@, join_semi(cviews))]
        } else {
            Seq::empty()
        };
        if categories.len() > 0 {
            proof {
                assert(views_of_strings(categories@) =~= cviews);
            }
            let ghost before = this.entries@;
            let joined = join_semi_exec(categories);
            this.add_entry("Categories".to_owned(), joined);
            proof {
                lemma_views_of_kvs_push(before, this.entries@.last());
                assert(views_of_kvs(this.entries@) =~= mimes_done + cat_seg);
            }
        } else {
            proof {
                assert(cviews.len() == 0);
                assert(views_of_kvs(this.entries@) =~= mimes_done + cat_seg);
            }
        }

        proof {
            assert(spec_entries.take(5) + props_views + comment_seg + mime_seg + cat_seg
                =~= spec_entries);
            assert(views_of_kvs(this.entries@) =~= base + spec_entries);
        }

        let contents = render_exec(&this.entries);
        proof {
            assert(views_of_kvs(this.entries@) == base + spec_entries);
        }
        Ok(contents)
    }
}

} // verus!
