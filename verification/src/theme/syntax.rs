//! The colours of syntax highlighting.

use vstd::prelude::*;

use crate::theme::model::Tint;

verus! {

/// One colour for each family of tokens.
#[derive(Clone, Copy, Debug, PartialEq, Eq, Structural)]
pub struct SyntaxPalette {
    pub comment: Tint,
    pub comment_doc: Tint,
    pub keyword: Tint,
    pub function: Tint,
    pub type_: Tint,
    pub enum_: Tint,
    pub constructor: Tint,
    pub string: Tint,
    pub string_escape: Tint,
    pub string_special: Tint,
    pub number: Tint,
    pub boolean: Tint,
    pub constant: Tint,
    pub constant_builtin: Tint,
    pub property: Tint,
    pub variable: Tint,
    pub variable_builtin: Tint,
    pub operator: Tint,
    pub punctuation: Tint,
    pub punctuation_special: Tint,
    pub attribute: Tint,
    pub tag: Tint,
    pub label: Tint,
    pub namespace: Tint,
    pub title: Tint,
    pub text_literal: Tint,
    pub link_uri: Tint,
    pub link_text: Tint,
    pub emphasis: Tint,
    pub emphasis_strong: Tint,
}

/// Opaque colours as mathematical values.
pub open spec fn opaque(hexes: Seq<u32>) -> Seq<Tint> {
    hexes.map_values(|hex: u32| Tint { rgb: hex, percent: 100 })
}

impl SyntaxPalette {
    /// The colours in the order of the fields.
    pub open spec fn slots(self) -> Seq<Tint> {
        seq![
            self.comment,
            self.comment_doc,
            self.keyword,
            self.function,
            self.type_,
            self.enum_,
            self.constructor,
            self.string,
            self.string_escape,
            self.string_special,
            self.number,
            self.boolean,
            self.constant,
            self.constant_builtin,
            self.property,
            self.variable,
            self.variable_builtin,
            self.operator,
            self.punctuation,
            self.punctuation_special,
            self.attribute,
            self.tag,
            self.label,
            self.namespace,
            self.title,
            self.text_literal,
            self.link_uri,
            self.link_text,
            self.emphasis,
            self.emphasis_strong,
        ]
    }

    /// The colours in the order of the fields.
    pub fn all_slots(&self) -> (r: Vec<Tint>)
        ensures
            r@ == self.slots(),
    {
        let r = vec![
            self.comment,
            self.comment_doc,
            self.keyword,
            self.function,
            self.type_,
            self.enum_,
            self.constructor,
            self.string,
            self.string_escape,
            self.string_special,
            self.number,
            self.boolean,
            self.constant,
            self.constant_builtin,
            self.property,
            self.variable,
            self.variable_builtin,
            self.operator,
            self.punctuation,
            self.punctuation_special,
            self.attribute,
            self.tag,
            self.label,
            self.namespace,
            self.title,
            self.text_literal,
            self.link_uri,
            self.link_text,
            self.emphasis,
            self.emphasis_strong,
        ];
        assert(r@ =~= self.slots());
        r
    }

    /// The palette of the default dark theme.
    pub fn catppuccin_mocha() -> (r: SyntaxPalette)
        ensures
            r.slots() == opaque(
                seq![
                    0x989898u32, 0xa0a0a0u32, 0xb070ffu32, 0xa868e8u32, 0xf89850u32, 0xf0a060u32,
                    0xf8a858u32, 0x40c878u32, 0x70c8f0u32, 0xf87878u32, 0xf8c060u32, 0xf0b858u32,
                    0xf8d878u32, 0x70c8f0u32, 0xf0a060u32, 0xf89850u32, 0xf8a858u32, 0x70c8f0u32,
                    0xd8d0d0u32, 0xf87878u32, 0x78d0f8u32, 0xf87070u32, 0xf0c8b8u32, 0xa868e8u32,
                    0xff8080u32, 0x48d080u32, 0x70c8f0u32, 0xb070ffu32, 0xf08090u32, 0xf0c8b8u32,
                ],
            ),
    {
        SyntaxPalette {
            comment: Tint::solid(0x989898),
            comment_doc: Tint::solid(0xa0a0a0),
            keyword: Tint::solid(0xb070ff),
            function: Tint::solid(0xa868e8),
            type_: Tint::solid(0xf89850),
            enum_: Tint::solid(0xf0a060),
            constructor: Tint::solid(0xf8a858),
            string: Tint::solid(0x40c878),
            string_escape: Tint::solid(0x70c8f0),
            string_special: Tint::solid(0xf87878),
            number: Tint::solid(0xf8c060),
            boolean: Tint::solid(0xf0b858),
            constant: Tint::solid(0xf8d878),
            constant_builtin: Tint::solid(0x70c8f0),
            property: Tint::solid(0xf0a060),
            variable: Tint::solid(0xf89850),
            variable_builtin: Tint::solid(0xf8a858),
            operator: Tint::solid(0x70c8f0),
            punctuation: Tint::solid(0xd8d0d0),
            punctuation_special: Tint::solid(0xf87878),
            attribute: Tint::solid(0x78d0f8),
            tag: Tint::solid(0xf87070),
            label: Tint::solid(0xf0c8b8),
            namespace: Tint::solid(0xa868e8),
            title: Tint::solid(0xff8080),
            text_literal: Tint::solid(0x48d080),
            link_uri: Tint::solid(0x70c8f0),
            link_text: Tint::solid(0xb070ff),
            emphasis: Tint::solid(0xf08090),
            emphasis_strong: Tint::solid(0xf0c8b8),
        }
    }

    /// The palette of the default light theme: darker hues that read on white.
    pub fn catppuccin_latte() -> (r: SyntaxPalette)
        ensures
            r.slots() == opaque(
                seq![
                    0x9ca0b0u32, 0x8c8fa1u32, 0x8839efu32, 0x1e66f5u32, 0x179299u32, 0x179299u32,
                    0x1e66f5u32, 0x40a02bu32, 0x04a5e5u32, 0xea76cbu32, 0xfe640bu32, 0xfe640bu32,
                    0xdf8e1du32, 0x209fb5u32, 0xd20f39u32, 0x4c4f69u32, 0xfe640bu32, 0x04a5e5u32,
                    0x5c5f77u32, 0xe64553u32, 0x1e66f5u32, 0xd20f39u32, 0xdc8a78u32, 0x7287fdu32,
                    0xd20f39u32, 0x40a02bu32, 0x04a5e5u32, 0x1e66f5u32, 0xe64553u32, 0xdd7878u32,
                ],
            ),
    {
        SyntaxPalette {
            comment: Tint::solid(0x9ca0b0),
            comment_doc: Tint::solid(0x8c8fa1),
            keyword: Tint::solid(0x8839ef),
            function: Tint::solid(0x1e66f5),
            type_: Tint::solid(0x179299),
            enum_: Tint::solid(0x179299),
            constructor: Tint::solid(0x1e66f5),
            string: Tint::solid(0x40a02b),
            string_escape: Tint::solid(0x04a5e5),
            string_special: Tint::solid(0xea76cb),
            number: Tint::solid(0xfe640b),
            boolean: Tint::solid(0xfe640b),
            constant: Tint::solid(0xdf8e1d),
            constant_builtin: Tint::solid(0x209fb5),
            property: Tint::solid(0xd20f39),
            variable: Tint::solid(0x4c4f69),
            variable_builtin: Tint::solid(0xfe640b),
            operator: Tint::solid(0x04a5e5),
            punctuation: Tint::solid(0x5c5f77),
            punctuation_special: Tint::solid(0xe64553),
            attribute: Tint::solid(0x1e66f5),
            tag: Tint::solid(0xd20f39),
            label: Tint::solid(0xdc8a78),
            namespace: Tint::solid(0x7287fd),
            title: Tint::solid(0xd20f39),
            text_literal: Tint::solid(0x40a02b),
            link_uri: Tint::solid(0x04a5e5),
            link_text: Tint::solid(0x1e66f5),
            emphasis: Tint::solid(0xe64553),
            emphasis_strong: Tint::solid(0xdd7878),
        }
    }

    /// Mostly neutrals on black, with a few crisp accents.
    pub fn vercel_dark() -> (r: SyntaxPalette)
        ensures
            r.slots() == opaque(
                seq![
                    0x737373u32, 0x8a8a8au32, 0xffffffu32, 0x7dd3fcu32, 0x60a5fau32, 0x93c5fdu32,
                    0xa5b4fcu32, 0x86efacu32, 0x67e8f9u32, 0xf0abfcu32, 0xfde68au32, 0xfbbf24u32,
                    0xf5d90au32, 0x38bdf8u32, 0xfca5a5u32, 0xe5e5e5u32, 0xfcd34du32, 0x94a3b8u32,
                    0xa3a3a3u32, 0xf87171u32, 0x7dd3fcu32, 0xfb7185u32, 0xd4d4d4u32, 0xc4b5fdu32,
                    0xffffffu32, 0x86efacu32, 0x7dd3fcu32, 0xffffffu32, 0xf9a8d4u32, 0xf5f5f5u32,
                ],
            ),
    {
        SyntaxPalette {
            comment: Tint::solid(0x737373),
            comment_doc: Tint::solid(0x8a8a8a),
            keyword: Tint::solid(0xffffff),
            function: Tint::solid(0x7dd3fc),
            type_: Tint::solid(0x60a5fa),
            enum_: Tint::solid(0x93c5fd),
            constructor: Tint::solid(0xa5b4fc),
            string: Tint::solid(0x86efac),
            string_escape: Tint::solid(0x67e8f9),
            string_special: Tint::solid(0xf0abfc),
            number: Tint::solid(0xfde68a),
            boolean: Tint::solid(0xfbbf24),
            constant: Tint::solid(0xf5d90a),
            constant_builtin: Tint::solid(0x38bdf8),
            property: Tint::solid(0xfca5a5),
            variable: Tint::solid(0xe5e5e5),
            variable_builtin: Tint::solid(0xfcd34d),
            operator: Tint::solid(0x94a3b8),
            punctuation: Tint::solid(0xa3a3a3),
            punctuation_special: Tint::solid(0xf87171),
            attribute: Tint::solid(0x7dd3fc),
            tag: Tint::solid(0xfb7185),
            label: Tint::solid(0xd4d4d4),
            namespace: Tint::solid(0xc4b5fd),
            title: Tint::solid(0xffffff),
            text_literal: Tint::solid(0x86efac),
            link_uri: Tint::solid(0x7dd3fc),
            link_text: Tint::solid(0xffffff),
            emphasis: Tint::solid(0xf9a8d4),
            emphasis_strong: Tint::solid(0xf5f5f5),
        }
    }

    /// Graphite neutrals and ivory, with restrained orange.
    pub fn claude_dark() -> (r: SyntaxPalette)
        ensures
            r.slots() == opaque(
                seq![
                    0x75736du32, 0x93938bu32, 0xd97757u32, 0xddd5c8u32, 0xb9b9aeu32, 0xb8a1c8u32,
                    0xd3b49au32, 0x9ab38au32, 0x95b8b2u32, 0xd9905fu32, 0xc3a45fu32, 0xd97757u32,
                    0xc3c2b7u32, 0x8fa4b8u32, 0xd3a082u32, 0xd7d0c6u32, 0xd5b976u32, 0x93938bu32,
                    0xa5a49cu32, 0xd97757u32, 0xb9b9aeu32, 0xe68a6du32, 0xc3c2b7u32, 0xb8a1c8u32,
                    0xc3c2b7u32, 0x9ab38au32, 0x8fa4b8u32, 0xd97757u32, 0xd9905fu32, 0xf2eee8u32,
                ],
            ),
    {
        SyntaxPalette {
            comment: Tint::solid(0x75736d),
            comment_doc: Tint::solid(0x93938b),
            keyword: Tint::solid(0xd97757),
            function: Tint::solid(0xddd5c8),
            type_: Tint::solid(0xb9b9ae),
            enum_: Tint::solid(0xb8a1c8),
            constructor: Tint::solid(0xd3b49a),
            string: Tint::solid(0x9ab38a),
            string_escape: Tint::solid(0x95b8b2),
            string_special: Tint::solid(0xd9905f),
            number: Tint::solid(0xc3a45f),
            boolean: Tint::solid(0xd97757),
            constant: Tint::solid(0xc3c2b7),
            constant_builtin: Tint::solid(0x8fa4b8),
            property: Tint::solid(0xd3a082),
            variable: Tint::solid(0xd7d0c6),
            variable_builtin: Tint::solid(0xd5b976),
            operator: Tint::solid(0x93938b),
            punctuation: Tint::solid(0xa5a49c),
            punctuation_special: Tint::solid(0xd97757),
            attribute: Tint::solid(0xb9b9ae),
            tag: Tint::solid(0xe68a6d),
            label: Tint::solid(0xc3c2b7),
            namespace: Tint::solid(0xb8a1c8),
            title: Tint::solid(0xc3c2b7),
            text_literal: Tint::solid(0x9ab38a),
            link_uri: Tint::solid(0x8fa4b8),
            link_text: Tint::solid(0xd97757),
            emphasis: Tint::solid(0xd9905f),
            emphasis_strong: Tint::solid(0xf2eee8),
        }
    }

    /// Near-black neutrals with blue-white accents.
    pub fn cursor_dark() -> (r: SyntaxPalette)
        ensures
            r.slots() == opaque(
                seq![
                    0x6f6f6fu32, 0x989898u32, 0xa0d0f0u32, 0xe8e8e8u32, 0x7dd3fcu32, 0x8fb7ffu32,
                    0xb8e0f0u32, 0x57d992u32, 0x8bdcffu32, 0xc79bffu32, 0xffd166u32, 0xffb86bu32,
                    0xd8d8d8u32, 0xa0d0f0u32, 0xb8e0f0u32, 0xf5f5f5u32, 0xffd166u32, 0x989898u32,
                    0xb0b0b0u32, 0xff8580u32, 0x7dd3fcu32, 0xff8580u32, 0xd0d0d0u32, 0xc79bffu32,
                    0xffffffu32, 0x57d992u32, 0xa0d0f0u32, 0x8fb7ffu32, 0xb8e0f0u32, 0xffffffu32,
                ],
            ),
    {
        SyntaxPalette {
            comment: Tint::solid(0x6f6f6f),
            comment_doc: Tint::solid(0x989898),
            keyword: Tint::solid(0xa0d0f0),
            function: Tint::solid(0xe8e8e8),
            type_: Tint::solid(0x7dd3fc),
            enum_: Tint::solid(0x8fb7ff),
            constructor: Tint::solid(0xb8e0f0),
            string: Tint::solid(0x57d992),
            string_escape: Tint::solid(0x8bdcff),
            string_special: Tint::solid(0xc79bff),
            number: Tint::solid(0xffd166),
            boolean: Tint::solid(0xffb86b),
            constant: Tint::solid(0xd8d8d8),
            constant_builtin: Tint::solid(0xa0d0f0),
            property: Tint::solid(0xb8e0f0),
            variable: Tint::solid(0xf5f5f5),
            variable_builtin: Tint::solid(0xffd166),
            operator: Tint::solid(0x989898),
            punctuation: Tint::solid(0xb0b0b0),
            punctuation_special: Tint::solid(0xff8580),
            attribute: Tint::solid(0x7dd3fc),
            tag: Tint::solid(0xff8580),
            label: Tint::solid(0xd0d0d0),
            namespace: Tint::solid(0xc79bff),
            title: Tint::solid(0xffffff),
            text_literal: Tint::solid(0x57d992),
            link_uri: Tint::solid(0xa0d0f0),
            link_text: Tint::solid(0x8fb7ff),
            emphasis: Tint::solid(0xb8e0f0),
            emphasis_strong: Tint::solid(0xffffff),
        }
    }

    /// Near-black structure on white.
    pub fn vercel_light() -> (r: SyntaxPalette)
        ensures
            r.slots() == opaque(
                seq![
                    0x6b7280u32, 0x52525bu32, 0x000000u32, 0x0068d6u32, 0x067f6fu32, 0x0a6e64u32,
                    0x4338cau32, 0x0f7b0fu32, 0x0e7490u32, 0xa21cafu32, 0xa35200u32, 0xb45309u32,
                    0x854d0eu32, 0x0369a1u32, 0xbe123cu32, 0x27272au32, 0x92400eu32, 0x475569u32,
                    0x64748bu32, 0xcd2b31u32, 0x0068d6u32, 0xcd2b31u32, 0x3f3f46u32, 0x7820bcu32,
                    0x000000u32, 0x0f7b0fu32, 0x0068d6u32, 0x1d4ed8u32, 0xbe185du32, 0x18181bu32,
                ],
            ),
    {
        SyntaxPalette {
            comment: Tint::solid(0x6b7280),
            comment_doc: Tint::solid(0x52525b),
            keyword: Tint::solid(0x000000),
            function: Tint::solid(0x0068d6),
            type_: Tint::solid(0x067f6f),
            enum_: Tint::solid(0x0a6e64),
            constructor: Tint::solid(0x4338ca),
            string: Tint::solid(0x0f7b0f),
            string_escape: Tint::solid(0x0e7490),
            string_special: Tint::solid(0xa21caf),
            number: Tint::solid(0xa35200),
            boolean: Tint::solid(0xb45309),
            constant: Tint::solid(0x854d0e),
            constant_builtin: Tint::solid(0x0369a1),
            property: Tint::solid(0xbe123c),
            variable: Tint::solid(0x27272a),
            variable_builtin: Tint::solid(0x92400e),
            operator: Tint::solid(0x475569),
            punctuation: Tint::solid(0x64748b),
            punctuation_special: Tint::solid(0xcd2b31),
            attribute: Tint::solid(0x0068d6),
            tag: Tint::solid(0xcd2b31),
            label: Tint::solid(0x3f3f46),
            namespace: Tint::solid(0x7820bc),
            title: Tint::solid(0x000000),
            text_literal: Tint::solid(0x0f7b0f),
            link_uri: Tint::solid(0x0068d6),
            link_text: Tint::solid(0x1d4ed8),
            emphasis: Tint::solid(0xbe185d),
            emphasis_strong: Tint::solid(0x18181b),
        }
    }

    /// Warm ink on cream, with orange for keywords.
    pub fn claude_light() -> (r: SyntaxPalette)
        ensures
            r.slots() == opaque(
                seq![
                    0x8f8b7du32, 0x7a7667u32, 0xc2552fu32, 0x4a6fa5u32, 0x2f7d72u32, 0x7a5ea8u32,
                    0xa2643au32, 0x4f7a3fu32, 0x2b7f8fu32, 0xb0562eu32, 0x9a6b1fu32, 0xc2552fu32,
                    0x6b5f3du32, 0x3f6b8au32, 0xa14d5au32, 0x4a4636u32, 0x8a6b2au32, 0x6f6a58u32,
                    0x807b68u32, 0xc2552fu32, 0x2f7d72u32, 0xb4442au32, 0x6b6552u32, 0x7a5ea8u32,
                    0x8a4a2au32, 0x4f7a3fu32, 0x2b6f9au32, 0xc2552fu32, 0xb0562eu32, 0x2e2b1eu32,
                ],
            ),
    {
        SyntaxPalette {
            comment: Tint::solid(0x8f8b7d),
            comment_doc: Tint::solid(0x7a7667),
            keyword: Tint::solid(0xc2552f),
            function: Tint::solid(0x4a6fa5),
            type_: Tint::solid(0x2f7d72),
            enum_: Tint::solid(0x7a5ea8),
            constructor: Tint::solid(0xa2643a),
            string: Tint::solid(0x4f7a3f),
            string_escape: Tint::solid(0x2b7f8f),
            string_special: Tint::solid(0xb0562e),
            number: Tint::solid(0x9a6b1f),
            boolean: Tint::solid(0xc2552f),
            constant: Tint::solid(0x6b5f3d),
            constant_builtin: Tint::solid(0x3f6b8a),
            property: Tint::solid(0xa14d5a),
            variable: Tint::solid(0x4a4636),
            variable_builtin: Tint::solid(0x8a6b2a),
            operator: Tint::solid(0x6f6a58),
            punctuation: Tint::solid(0x807b68),
            punctuation_special: Tint::solid(0xc2552f),
            attribute: Tint::solid(0x2f7d72),
            tag: Tint::solid(0xb4442a),
            label: Tint::solid(0x6b6552),
            namespace: Tint::solid(0x7a5ea8),
            title: Tint::solid(0x8a4a2a),
            text_literal: Tint::solid(0x4f7a3f),
            link_uri: Tint::solid(0x2b6f9a),
            link_text: Tint::solid(0xc2552f),
            emphasis: Tint::solid(0xb0562e),
            emphasis_strong: Tint::solid(0x2e2b1e),
        }
    }

    /// The familiar light colours of a code editor.
    pub fn cursor_light() -> (r: SyntaxPalette)
        ensures
            r.slots() == opaque(
                seq![
                    0x008000u32, 0x3f8f3fu32, 0x0000ffu32, 0x795e26u32, 0x267f99u32, 0x2b91afu32,
                    0x3b8ea5u32, 0xa31515u32, 0xd16969u32, 0x811f3fu32, 0x098658u32, 0x0000ffu32,
                    0x0070c1u32, 0x0451a5u32, 0x0b5394u32, 0x001080u32, 0x0070c1u32, 0x393a34u32,
                    0x5a5a5au32, 0xaf00dbu32, 0xe50000u32, 0x800000u32, 0x3d3d3du32, 0x4b69c6u32,
                    0x800000u32, 0xa31515u32, 0x0f6fc5u32, 0x0000ffu32, 0xaf00dbu32, 0x000080u32,
                ],
            ),
    {
        SyntaxPalette {
            comment: Tint::solid(0x008000),
            comment_doc: Tint::solid(0x3f8f3f),
            keyword: Tint::solid(0x0000ff),
            function: Tint::solid(0x795e26),
            type_: Tint::solid(0x267f99),
            enum_: Tint::solid(0x2b91af),
            constructor: Tint::solid(0x3b8ea5),
            string: Tint::solid(0xa31515),
            string_escape: Tint::solid(0xd16969),
            string_special: Tint::solid(0x811f3f),
            number: Tint::solid(0x098658),
            boolean: Tint::solid(0x0000ff),
            constant: Tint::solid(0x0070c1),
            constant_builtin: Tint::solid(0x0451a5),
            property: Tint::solid(0x0b5394),
            variable: Tint::solid(0x001080),
            variable_builtin: Tint::solid(0x0070c1),
            operator: Tint::solid(0x393a34),
            punctuation: Tint::solid(0x5a5a5a),
            punctuation_special: Tint::solid(0xaf00db),
            attribute: Tint::solid(0xe50000),
            tag: Tint::solid(0x800000),
            label: Tint::solid(0x3d3d3d),
            namespace: Tint::solid(0x4b69c6),
            title: Tint::solid(0x800000),
            text_literal: Tint::solid(0xa31515),
            link_uri: Tint::solid(0x0f6fc5),
            link_text: Tint::solid(0x0000ff),
            emphasis: Tint::solid(0xaf00db),
            emphasis_strong: Tint::solid(0x000080),
        }
    }
}

/// The slots of a palette are its colours, each in its place; two palettes with the
/// same slots are the same. An opaque list has one opaque colour for each number.
pub proof fn slots_tell_palettes_apart(p: SyntaxPalette, q: SyntaxPalette, hexes: Seq<u32>, i: int)
    ensures
        p.slots().len() == 30,
        p.slots()[0] == p.comment,
        p.slots()[1] == p.comment_doc,
        p.slots()[2] == p.keyword,
        p.slots()[3] == p.function,
        p.slots()[4] == p.type_,
        p.slots()[5] == p.enum_,
        p.slots()[6] == p.constructor,
        p.slots()[7] == p.string,
        p.slots()[8] == p.string_escape,
        p.slots()[9] == p.string_special,
        p.slots()[10] == p.number,
        p.slots()[11] == p.boolean,
        p.slots()[12] == p.constant,
        p.slots()[13] == p.constant_builtin,
        p.slots()[14] == p.property,
        p.slots()[15] == p.variable,
        p.slots()[16] == p.variable_builtin,
        p.slots()[17] == p.operator,
        p.slots()[18] == p.punctuation,
        p.slots()[19] == p.punctuation_special,
        p.slots()[20] == p.attribute,
        p.slots()[21] == p.tag,
        p.slots()[22] == p.label,
        p.slots()[23] == p.namespace,
        p.slots()[24] == p.title,
        p.slots()[25] == p.text_literal,
        p.slots()[26] == p.link_uri,
        p.slots()[27] == p.link_text,
        p.slots()[28] == p.emphasis,
        p.slots()[29] == p.emphasis_strong,
        p.slots() == q.slots() ==> p == q,
        opaque(hexes).len() == hexes.len(),
        0 <= i < hexes.len() ==> opaque(hexes)[i] == (Tint { rgb: hexes[i], percent: 100 }),
{
    if p.slots() == q.slots() {
        let (a, b) = (p.slots(), q.slots());
        assert(a[0] == b[0]);
        assert(a[1] == b[1]);
        assert(a[2] == b[2]);
        assert(a[3] == b[3]);
        assert(a[4] == b[4]);
        assert(a[5] == b[5]);
        assert(a[6] == b[6]);
        assert(a[7] == b[7]);
        assert(a[8] == b[8]);
        assert(a[9] == b[9]);
        assert(a[10] == b[10]);
        assert(a[11] == b[11]);
        assert(a[12] == b[12]);
        assert(a[13] == b[13]);
        assert(a[14] == b[14]);
        assert(a[15] == b[15]);
        assert(a[16] == b[16]);
        assert(a[17] == b[17]);
        assert(a[18] == b[18]);
        assert(a[19] == b[19]);
        assert(a[20] == b[20]);
        assert(a[21] == b[21]);
        assert(a[22] == b[22]);
        assert(a[23] == b[23]);
        assert(a[24] == b[24]);
        assert(a[25] == b[25]);
        assert(a[26] == b[26]);
        assert(a[27] == b[27]);
        assert(a[28] == b[28]);
        assert(a[29] == b[29]);
    }
}

} // verus!
