//! The tree patterns that find htmx attributes and tag comments.

use vstd::prelude::*;

verus! {

/// Attribute names: complete ones, and those of a tag that is still being
/// typed.
pub const HX_NAME: &'static str = r#"
(
        [
            (_ 
                (tag_name) 

                (_)*

                (attribute (attribute_name) @attr_name) @complete_match

                (#eq? @attr_name @complete_match)
            )

            (_ 
              (tag_name) 

              (attribute (attribute_name)) 

             (ERROR)? @equal_error
            ) @unfinished_tag
        ]

        (#match? @attr_name "hx-.*")
)
    
"#;

/// Attribute names with their values: quoted, empty, cut short by an open
/// quote, or followed by an error.
pub const HX_VALUE: &'static str = r#"
(
        [
          (ERROR 
            (tag_name) 

            (attribute_name) @attr_name 
            (_)
          ) @open_quote_error

          (_ 
            (tag_name)

            (attribute 
              (attribute_name) @attr_name
              (_)
            ) @last_item

            (ERROR) @error_char
          )

          (_
            (tag_name)

            (attribute 
              (attribute_name) @attr_name
              (quoted_attribute_value) @quoted_attr_value

              (#eq? @quoted_attr_value "\"\"")
            ) @empty_attribute
          )

          (_
            (tag_name) 

            (attribute 
              (attribute_name) @attr_name
              (quoted_attribute_value (attribute_value) @attr_value)

              ) @non_empty_attribute 
          )
        ]

        (#match? @attr_name "hx-.*")
)"#;

/// Comments of JavaScript and TypeScript sources that hold a tag marker.
pub const HX_JS_TAGS: &'static str = r#"
(
  (comment) @comment
  (#match? @comment "hx@")
)
"#;

/// Line comments of Rust sources that hold a tag marker.
pub const HX_RUST_TAGS: &'static str = r#"
(
  (line_comment) @comment
  (#match? @comment "hx@")
)
"#;

/// Whole attributes in all their states: with a value, with an empty
/// value, without one, followed by an error, or cut short.
pub const QUICK_QUERY: &'static str = r#"
(
  [

    (_
      (tag_name)
      (_)*
      (attribute
          (attribute_name) @attr_name
          (quoted_attribute_value
          	(attribute_value) @attr_value
            (_)*
          ) @quoted_value

      ) @with_attr_value_not_empty
    )

    (_

      (tag_name)
        (attribute
          (attribute_name) @attr_name)
		(ERROR)
       @with_attr_name_with_equals_err
    )

    (_
      (tag_name)
      (attribute
          (attribute_name) @attr_name
          (quoted_attribute_value) @quoted_attr_value

          (#eq? @quoted_attr_value "\"\"")

      ) @with_attr_value_empty
    )

    (_
      (ERROR
      (tag_name)

          (attribute_name) @attr_name
          (attribute_value) @attr_value

       @with_error_with_value_t_no_second_quote
      )
    )

    (_

      (tag_name)
        (attribute
          (attribute_name) @attr_name
          )

       @with_attr_name_without_value_t
       (#eq? @attr_name @with_attr_name_without_value_t)

    )

    (_
      (tag_name)
      (attribute
          (attribute_name) @attr_name
          (attribute_value) @attr_value

      ) @no_second_quote
    )

  ]

	(#match? @attr_name "hx-.*")
)

"#;

} // verus!
