//! A compile-time capability marker: a builder parameterized over one of
//! these states accepts semantic selectors only while semantic highlighting
//! is enabled. With it disabled, rules may target TextMate scopes alone, and
//! the finished theme switches semantic highlighting off.

use vstd::prelude::*;
use crate::dsl::{
    semantic_selectors, spec_semantic_style, spec_textmate_settings,
    style_to_textmate_rule_settings, textmate_scopes, FontStyle, Selector, Style,
};
use crate::ordered_map::{insert_each, semantic_entries, semantic_map_insert};
use crate::proto;
use crate::proto::textmate::RuleV;

verus! {

/// One state of the capability marker: what a rule addition may target and
/// what it does, and what the state contributes to the finished theme.
pub trait SemanticHighlightingState: Sized {
    /// The selectors a rule may target in this state.
    type Selectors;

    /// The semantic-highlighting section this state contributes to the theme.
    spec fn highlighting_view(self) -> proto::semantic::HighlightingV;

    /// How one rule addition relates the state and the scope rules after the
    /// call to those before it.
    spec fn add_rule_post(
        pre: Self,
        post: Self,
        selectors: Self::Selectors,
        style: Style,
        tm_pre: Seq<RuleV>,
        tm_post: Seq<RuleV>,
    ) -> bool;

    fn into_proto(self) -> (h: proto::semantic::Highlighting)
        ensures
            h@ == self.highlighting_view(),
    ;

    fn add_rule(
        &mut self,
        selectors: Self::Selectors,
        style: Style,
        textmate_rules: &mut Vec<proto::textmate::Rule>,
    )
        ensures
            Self::add_rule_post(
                *old(self),
                *final(self),
                selectors,
                style,
                old(textmate_rules)@.map_values(|r: proto::textmate::Rule| r@),
                final(textmate_rules)@.map_values(|r: proto::textmate::Rule| r@),
            ),
    ;
}

/// Semantic highlighting is on: rules may target selectors of either flavor,
/// and the semantic ones accumulate here.
#[non_exhaustive]
pub struct SemanticHighlightingEnabled {
    pub rules: indexmap::IndexMap<proto::semantic::Selector, proto::semantic::Style>,
}

/// Semantic highlighting is off: rules may target TextMate scopes alone.
#[non_exhaustive]
pub struct SemanticHighlightingDisabled;

impl SemanticHighlightingEnabled {
    /// The enabled state, with no semantic rules yet.
    pub fn new() -> (t: Self)
        ensures
            semantic_entries(t.rules) == Seq::<
                (proto::semantic::SelectorV, proto::semantic::Style),
            >::empty(),
    {
        SemanticHighlightingEnabled { rules: crate::ordered_map::semantic_map_new() }
    }
}

impl SemanticHighlightingDisabled {
    /// The disabled state.
    pub fn new() -> Self {
        SemanticHighlightingDisabled
    }
}

impl SemanticHighlightingState for SemanticHighlightingEnabled {
    type Selectors = Vec<Selector>;

    open spec fn highlighting_view(self) -> proto::semantic::HighlightingV {
        proto::semantic::HighlightingV::On { rules: semantic_entries(self.rules) }
    }

    open spec fn add_rule_post(
        pre: Self,
        post: Self,
        selectors: Vec<Selector>,
        style: Style,
        tm_pre: Seq<RuleV>,
        tm_post: Seq<RuleV>,
    ) -> bool {
        let svs = selectors@.map_values(|s: Selector| s@);
        let tms = textmate_scopes(svs);
        &&& if tms.len() == 0 {
            tm_post == tm_pre
        } else {
            tm_post == tm_pre.push(
                RuleV { scope: tms, settings: spec_textmate_settings(style) },
            )
        }
        &&& semantic_entries(post.rules) == insert_each(
            semantic_entries(pre.rules),
            semantic_selectors(svs),
            spec_semantic_style(style),
        )
    }

    fn into_proto(self) -> (h: proto::semantic::Highlighting) {
        proto::semantic::Highlighting::On { rules: self.rules }
    }

    fn add_rule(
        &mut self,
        selectors: Vec<Selector>,
        style: Style,
        textmate_rules: &mut Vec<proto::textmate::Rule>,
    ) {
        let ghost svs = selectors@.map_values(|s: Selector| s@);
        let mut selectors = selectors;
        let mut textmate_scope_strs: Vec<String> = Vec::new();
        let mut semantic_sels: Vec<proto::semantic::Selector> = Vec::new();
        let n = selectors.len();
        let mut i: usize = 0;
        while selectors.len() > 0
            invariant
                i + selectors@.len() == n,
                n == svs.len(),
                forall|j: int|
                    0 <= j < selectors@.len() ==> #[trigger] selectors@[j]@ == svs[i + j],
                textmate_scope_strs@.map_values(|s: String| s@) == textmate_scopes(
                    svs.take(i as int),
                ),
                semantic_sels@.map_values(|s: proto::semantic::Selector| s@)
                    == semantic_selectors(svs.take(i as int)),
            decreases selectors@.len(),
        {
            let sel = selectors.remove(0);
            proof {
                assert(sel@ == svs[i as int]);
                let t = svs.take(i + 1 as int);
                assert(t.drop_last() =~= svs.take(i as int));
                assert(t.last() == svs[i as int]);
            }
            match sel {
                Selector::TextMate(scope) => {
                    textmate_scope_strs.push(scope);
                    proof {
                        assert(textmate_scope_strs@.map_values(|s: String| s@) =~= textmate_scopes(
                            svs.take(i + 1 as int),
                        ));
                        assert(semantic_sels@.map_values(|s: proto::semantic::Selector| s@)
                            =~= semantic_selectors(svs.take(i + 1 as int)));
                    }
                },
                Selector::Semantic(sel) => {
                    semantic_sels.push(sel);
                    proof {
                        assert(textmate_scope_strs@.map_values(|s: String| s@) =~= textmate_scopes(
                            svs.take(i + 1 as int),
                        ));
                        assert(semantic_sels@.map_values(|s: proto::semantic::Selector| s@)
                            =~= semantic_selectors(svs.take(i + 1 as int)));
                    }
                },
            }
            i = i + 1;
        }
        proof {
            assert(svs.take(n as int) =~= svs);
        }
        if textmate_scope_strs.len() > 0 {
            let settings = style_to_textmate_rule_settings(style);
            let rule = proto::textmate::Rule { scope: textmate_scope_strs, settings };
            let ghost rv = rule@;
            textmate_rules.push(rule);
            proof {
                assert(rv =~= (RuleV {
                    scope: textmate_scopes(svs),
                    settings: spec_textmate_settings(style),
                }));
                assert(textmate_rules@.map_values(|r: proto::textmate::Rule| r@)
                    =~= old(textmate_rules)@.map_values(|r: proto::textmate::Rule| r@).push(rv));
            }
        }
        let semantic_style = proto::semantic::Style {
            foreground: style.foreground,
            font_style: match style.font_style {
                Some(FontStyle::Bold) => proto::semantic::FontStyle {
                    bold: proto::semantic::FontStyleSetting::True,
                    italic: proto::semantic::FontStyleSetting::False,
                    underline: proto::semantic::FontStyleSetting::False,
                },
                Some(FontStyle::Italic) => proto::semantic::FontStyle {
                    bold: proto::semantic::FontStyleSetting::False,
                    italic: proto::semantic::FontStyleSetting::True,
                    underline: proto::semantic::FontStyleSetting::False,
                },
                Some(FontStyle::Underline) => proto::semantic::FontStyle {
                    bold: proto::semantic::FontStyleSetting::False,
                    italic: proto::semantic::FontStyleSetting::False,
                    underline: proto::semantic::FontStyleSetting::True,
                },
                None => proto::semantic::FontStyle {
                    bold: proto::semantic::FontStyleSetting::Inherit,
                    italic: proto::semantic::FontStyleSetting::Inherit,
                    underline: proto::semantic::FontStyleSetting::Inherit,
                },
            },
        };
        assert(semantic_style == spec_semantic_style(style));
        let ghost sem_sel_views = semantic_selectors(svs);
        let ghost sem_init = semantic_entries(self.rules);
        let ghost tm_done = textmate_rules@;
        proof {
            assert(semantic_sels@.map_values(|s: proto::semantic::Selector| s@) == sem_sel_views);
        }
        let sem_n = semantic_sels.len();
        let mut k: usize = 0;
        while semantic_sels.len() > 0
            invariant
                k + semantic_sels@.len() == sem_n,
                sem_n == sem_sel_views.len(),
                forall|j: int|
                    0 <= j < semantic_sels@.len() ==> #[trigger] semantic_sels@[j]@ == sem_sel_views[
                        k + j
                    ],
                semantic_entries(self.rules) == insert_each(
                    sem_init,
                    sem_sel_views.take(k as int),
                    semantic_style,
                ),
                textmate_rules@ == tm_done,
            decreases semantic_sels@.len(),
        {
            let sel = semantic_sels.remove(0);
            proof {
                assert(sel@ == sem_sel_views[k as int]);
                let t = sem_sel_views.take(k + 1 as int);
                assert(t.drop_last() =~= sem_sel_views.take(k as int));
                assert(t.last() == sem_sel_views[k as int]);
            }
            semantic_map_insert(&mut self.rules, sel, semantic_style);
            k = k + 1;
        }
        proof {
            assert(sem_sel_views.take(sem_n as int) =~= sem_sel_views);
        }
    }
}

impl SemanticHighlightingState for SemanticHighlightingDisabled {
    type Selectors = Vec<String>;

    open spec fn highlighting_view(self) -> proto::semantic::HighlightingV {
        proto::semantic::HighlightingV::Off
    }

    open spec fn add_rule_post(
        pre: Self,
        post: Self,
        selectors: Vec<String>,
        style: Style,
        tm_pre: Seq<RuleV>,
        tm_post: Seq<RuleV>,
    ) -> bool {
        tm_post == tm_pre.push(
            RuleV {
                scope: selectors@.map_values(|s: String| s@),
                settings: spec_textmate_settings(style),
            },
        )
    }

    fn into_proto(self) -> (h: proto::semantic::Highlighting) {
        proto::semantic::Highlighting::Off
    }

    fn add_rule(
        &mut self,
        selectors: Vec<String>,
        style: Style,
        textmate_rules: &mut Vec<proto::textmate::Rule>,
    ) {
        let settings = style_to_textmate_rule_settings(style);
        let rule = proto::textmate::Rule { scope: selectors, settings };
        let ghost rv = rule@;
        textmate_rules.push(rule);
        proof {
            assert(textmate_rules@.map_values(|r: proto::textmate::Rule| r@) =~= old(
                textmate_rules,
            )@.map_values(|r: proto::textmate::Rule| r@).push(rv));
        }
    }
}

} // verus!
