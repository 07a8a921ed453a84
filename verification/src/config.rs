//! The deployment configuration of an application, and the name under which
//! a blueprint (preview) build is shown.
use vstd::prelude::*;

verus! {

/// A text that is either fixed or given per language.
pub enum LocalisedString {
    Hardcoded(String),
    /// Pairs of a language and the text in it.
    Localised(Vec<(String, String)>),
}

pub enum LocalisedStringView {
    Hardcoded(Seq<char>),
    Localised(Seq<(Seq<char>, Seq<char>)>),
}

pub open spec fn localisation_views(pairs: Seq<(String, String)>) -> Seq<(Seq<char>, Seq<char>)> {
    pairs.map_values(|p: (String, String)| (p.0@, p.1@))
}

impl View for LocalisedString {
    type V = LocalisedStringView;

    open spec fn view(&self) -> LocalisedStringView {
        match self {
            LocalisedString::Hardcoded(s) => LocalisedStringView::Hardcoded(s@),
            LocalisedString::Localised(pairs) => LocalisedStringView::Localised(
                localisation_views(pairs@),
            ),
        }
    }
}

/// No two pairs have the same first part: a list of pairs that stands for a
/// map.
pub open spec fn keys_distinct<K, V>(pairs: Seq<(K, V)>) -> bool {
    forall|i: int, j: int| 0 <= i < j < pairs.len() ==> #[trigger] pairs[i].0 != #[trigger] pairs[j].0
}

impl LocalisedStringView {
    /// Each language has at most one text.
    pub open spec fn wf(self) -> bool {
        match self {
            LocalisedStringView::Hardcoded(_) => true,
            LocalisedStringView::Localised(pairs) => keys_distinct(pairs),
        }
    }
}

/// The text ` Blueprint`.
pub open spec fn blueprint_suffix() -> Seq<char> {
    seq![' ', 'B', 'l', 'u', 'e', 'p', 'r', 'i', 'n', 't']
}

/// A name with ` Blueprint` after it, in every language.
pub open spec fn blueprint_name(name: LocalisedStringView) -> LocalisedStringView {
    match name {
        LocalisedStringView::Hardcoded(s) => LocalisedStringView::Hardcoded(s + blueprint_suffix()),
        LocalisedStringView::Localised(pairs) => LocalisedStringView::Localised(
            pairs.map_values(
                |p: (Seq<char>, Seq<char>)| (p.0, p.1 + blueprint_suffix()),
            ),
        ),
    }
}

/// A localised text, where there is one, has at most one text per language.
pub open spec fn opt_localised_wf(s: Option<LocalisedStringView>) -> bool {
    match s {
        Some(v) => v.wf(),
        None => true,
    }
}

pub open spec fn opt_localised_view(s: Option<LocalisedString>) -> Option<LocalisedStringView> {
    match s {
        Some(l) => Some(l@),
        None => None,
    }
}

/// A blueprint name is given in the same languages, so each still has at
/// most one text.
proof fn lemma_blueprint_name_keeps_languages(name: LocalisedStringView)
    ensures
        name.wf() ==> blueprint_name(name).wf(),
{
    match name {
        LocalisedStringView::Localised(pairs) => {
            let out = pairs.map_values(|p: (Seq<char>, Seq<char>)| (p.0, p.1 + blueprint_suffix()));
            assert forall|i: int, j: int| 0 <= i < j < out.len() && keys_distinct(pairs) implies #[trigger] out[i].0
                != #[trigger] out[j].0 by {
                assert(out[i].0 == pairs[i].0);
                assert(out[j].0 == pairs[j].0);
            }
        },
        _ => {},
    }
}

impl LocalisedString {
    /// A copy of this text.
    pub fn duplicate(&self) -> (r: LocalisedString)
        ensures
            r@ == self@,
            self@.wf() ==> r@.wf(),
    {
        match self {
            LocalisedString::Hardcoded(s) => LocalisedString::Hardcoded(s.clone()),
            LocalisedString::Localised(pairs) => {
                let mut out: Vec<(String, String)> = Vec::new();
                let mut i: usize = 0;
                while i < pairs.len()
                    invariant
                        i <= pairs@.len(),
                        localisation_views(out@) == localisation_views(pairs@).take(i as int),
                    decreases pairs@.len() - i,
                {
                    let ghost before = out@;
                    out.push((pairs[i].0.clone(), pairs[i].1.clone()));
                    proof {
                        assert(localisation_views(out@) =~= localisation_views(before).push(
                            localisation_views(pairs@)[i as int],
                        ));
                        assert(localisation_views(pairs@).take(i + 1) =~= localisation_views(
                            pairs@,
                        ).take(i as int).push(localisation_views(pairs@)[i as int]));
                    }
                    i = i + 1;
                }
                proof {
                    assert(localisation_views(pairs@).take(pairs@.len() as int) =~= localisation_views(
                        pairs@,
                    ));
                }
                LocalisedString::Localised(out)
            },
        }
    }

    /// This text with ` Blueprint` after it, in every language.
    pub fn with_blueprint_suffix(&self) -> (r: LocalisedString)
        ensures
            r@ == blueprint_name(self@),
            self@.wf() ==> r@.wf(),
    {
        proof {
            lemma_blueprint_name_keeps_languages(self@);
        }
        proof {
            reveal_strlit(" Blueprint");
            assert(" Blueprint"@ =~= blueprint_suffix());
        }
        match self {
            LocalisedString::Hardcoded(s) => LocalisedString::Hardcoded(
                s.clone().concat(" Blueprint"),
            ),
            LocalisedString::Localised(pairs) => {
                let ghost target = localisation_views(pairs@).map_values(
                    |p: (Seq<char>, Seq<char>)| (p.0, p.1 + blueprint_suffix()),
                );
                let mut out: Vec<(String, String)> = Vec::new();
                let mut i: usize = 0;
                while i < pairs.len()
                    invariant
                        i <= pairs@.len(),
                        " Blueprint"@ == blueprint_suffix(),
                        target == localisation_views(pairs@).map_values(
                            |p: (Seq<char>, Seq<char>)| (p.0, p.1 + blueprint_suffix()),
                        ),
                        localisation_views(out@) == target.take(i as int),
                    decreases pairs@.len() - i,
                {
                    let ghost before = out@;
                    let language = pairs[i].0.clone();
                    let value = pairs[i].1.clone().concat(" Blueprint");
                    out.push((language, value));
                    proof {
                        assert(localisation_views(pairs@)[i as int] == (pairs@[i as int].0@, pairs@[i as int].1@));
                        assert(localisation_views(out@) =~= localisation_views(before).push(
                            target[i as int],
                        ));
                        assert(target.take(i + 1) =~= target.take(i as int).push(target[i as int]));
                    }
                    i = i + 1;
                }
                proof {
                    assert(target.take(pairs@.len() as int) =~= target);
                }
                LocalisedString::Localised(out)
            },
        }
    }
}

/// The `[application]` table of the configuration.
pub struct ContemporaryConfigApplicationDef {
    pub theme_colors: Vec<String>,
}

/// The `[config]` table of the configuration.
pub struct ContemporaryConfigConfigDef {
    pub blueprint: Option<String>,
    pub i18n_dir: Option<String>,
}

/// A `[deployment]` table of the configuration, with the tables for more
/// specific targets under it.
pub struct ContemporaryConfigDeploymentDef {
    pub application_name: Option<String>,
    pub application_generic_name: Option<String>,
    pub desktop_entry: Option<String>,
    pub icon: Option<String>,
    pub contemporary_base_icon: Option<String>,
    pub desktop_entry_categories: Option<Vec<String>>,
    pub apple_localisation_dir: Option<String>,
    pub extra_info_plist_attributes: Option<Vec<(String, String)>>,
    pub minimum_system_version: Option<String>,
    pub supports_automatic_graphics_switching: Option<bool>,
    pub disk_image_background: Option<String>,
    pub children: Vec<(String, ContemporaryConfigDeploymentDef)>,
}

impl ContemporaryConfigDeploymentDef {
    /// The table stands for maps as the configuration file writes them: no
    /// attribute name occurs twice, no target occurs twice among its
    /// children, and so on for each child.
    pub open spec fn wf(&self) -> bool
        decreases self,
    {
        &&& match self.extra_info_plist_attributes {
            Some(pairs) => keys_distinct(localisation_views(pairs@)),
            None => true,
        }
        &&& keys_distinct(
            self.children@.map_values(
                |c: (String, ContemporaryConfigDeploymentDef)| (c.0@, ()),
            ),
        )
        &&& forall|i: int|
            0 <= i < self.children@.len() ==> (#[trigger] self.children@[i]).1.wf()
    }
}

/// The deployment settings of an application for one target.
pub struct ContemporaryConfigDeployment {
    pub(crate) application_name: Option<LocalisedString>,
    pub application_generic_name: Option<LocalisedString>,
    pub desktop_entry: Option<String>,
    pub icon: Option<String>,
    pub contemporary_base_icon: Option<String>,
    pub desktop_entry_categories: Option<Vec<String>>,
    pub apple_localisation_dir: Option<LocalisedString>,
    pub extra_info_plist_attributes: Vec<(String, LocalisedString)>,
    pub minimum_system_version: String,
    pub disk_image_background: Option<String>,
    pub supports_automatic_graphics_switching: bool,
    pub(crate) is_blueprint: bool,
}

impl ContemporaryConfigDeployment {
    /// The application's name as configured.
    pub closed spec fn configured_name(&self) -> Option<LocalisedStringView> {
        opt_localised_view(self.application_name)
    }

    /// The settings are those of a blueprint build.
    pub closed spec fn for_blueprint(&self) -> bool {
        self.is_blueprint
    }

    /// The settings stand for maps as configured: no attribute name occurs
    /// twice, and no localised text has two texts for one language.
    pub closed spec fn wf(&self) -> bool {
        &&& keys_distinct(
            self.extra_info_plist_attributes@.map_values(
                |p: (String, LocalisedString)| (p.0@, p.1@),
            ),
        )
        &&& forall|i: int|
            0 <= i < self.extra_info_plist_attributes@.len()
                ==> (#[trigger] self.extra_info_plist_attributes@[i]).1@.wf()
        &&& opt_localised_wf(opt_localised_view(self.application_name))
        &&& opt_localised_wf(opt_localised_view(self.application_generic_name))
        &&& opt_localised_wf(opt_localised_view(self.apple_localisation_dir))
    }

    /// Deployment settings with an application name, for a blueprint build
    /// or not, and nothing else set.
    pub fn new(application_name: Option<LocalisedString>, is_blueprint: bool) -> (d: Self)
        ensures
            d.configured_name() == opt_localised_view(application_name),
            d.for_blueprint() == is_blueprint,
            opt_localised_wf(opt_localised_view(application_name)) ==> d.wf(),
    {
        ContemporaryConfigDeployment {
            application_name,
            application_generic_name: None,
            desktop_entry: None,
            icon: None,
            contemporary_base_icon: None,
            desktop_entry_categories: None,
            apple_localisation_dir: None,
            extra_info_plist_attributes: Vec::new(),
            minimum_system_version: String::new(),
            disk_image_background: None,
            supports_automatic_graphics_switching: false,
            is_blueprint,
        }
    }

    /// The application's name as shown: for a blueprint build, with
    /// ` Blueprint` after it in every language.
    pub fn application_name(&self) -> (r: Option<LocalisedString>)
        ensures
            opt_localised_view(r) == match self.configured_name() {
                Some(name) => Some(if self.for_blueprint() {
                    blueprint_name(name)
                } else {
                    name
                }),
                None => None,
            },
            self.wf() ==> opt_localised_wf(opt_localised_view(r)),
    {
        match &self.application_name {
            None => None,
            Some(name) => {
                if !self.is_blueprint {
                    Some(name.duplicate())
                } else {
                    Some(name.with_blueprint_suffix())
                }
            },
        }
    }
}

} // verus!
