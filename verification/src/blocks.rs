//! The builtin block types.

use vstd::prelude::*;

use crate::registry::{RegistryName, RegistryObject, RegistryError, spec_find_name,
    lemma_find_name_none};
use crate::voxeltypes::{BlockRegistry, BlockDefinition, BlockShapeSet, ColorRgba,
    empty_block};

verus! {

/// The names of the basic blocks, in registration order.
pub open spec fn basic_block_names() -> Seq<Seq<char>> {
    seq!["empty"@, "stone"@, "dirt"@, "grass"@, "snowy_grass"@, "water"@, "sand"@]
}

/// A standard-shaped, drawable terrain block with the given name, color
/// and collision flag.
pub open spec fn spec_standard_block(d: BlockDefinition, name: Seq<char>, color: ColorRgba,
    collides: bool) -> bool {
    &&& d.spec_name() == name
    &&& d.shape_set == BlockShapeSet::StandardShapedMaterial
    &&& d.representative_color == color
    &&& d.has_collision_box == collides
    &&& d.has_drawable_mesh
}

/// Make one standard-shaped terrain block definition.
fn standard_block(name: &str, r: u8, g: u8, b: u8, a: u8, collides: bool)
    -> (d: BlockDefinition)
    ensures
        spec_standard_block(d, name@, ColorRgba { r, g, b, a }, collides),
{
    BlockDefinition {
        name: RegistryName::of(name),
        shape_set: BlockShapeSet::StandardShapedMaterial,
        representative_color: ColorRgba::new(r, g, b, a),
        has_collision_box: collides,
        has_drawable_mesh: true,
    }
}

/// Installs the base set of blocks into the given block registry: the empty
/// block and the six standard terrain blocks, under their well-known names.
pub fn setup_basic_blocks(registry: &mut BlockRegistry) -> (r: Result<(), RegistryError>)
    requires
        old(registry)@.len() == 0,
    ensures
        r is Ok,
        final(registry)@.len() == 7,
        forall|k: int| 0 <= k < 7
            ==> (#[trigger] final(registry)@[k]).spec_name() == basic_block_names()[k],
        ({
            let empty = final(registry)@[0];
            &&& empty.shape_set == BlockShapeSet::FullCubeOnly
            &&& !empty.has_collision_box
            &&& !empty.has_drawable_mesh
            &&& empty.representative_color == (ColorRgba { r: 0, g: 0, b: 0, a: 0 })
        }),
        spec_standard_block(final(registry)@[1], "stone"@,
            ColorRgba { r: 64, g: 64, b: 64, a: 255 }, true),
        spec_standard_block(final(registry)@[2], "dirt"@,
            ColorRgba { r: 110, g: 81, b: 0, a: 255 }, true),
        spec_standard_block(final(registry)@[3], "grass"@,
            ColorRgba { r: 30, g: 230, b: 30, a: 255 }, true),
        spec_standard_block(final(registry)@[4], "snowy_grass"@,
            ColorRgba { r: 200, g: 200, b: 200, a: 255 }, true),
        spec_standard_block(final(registry)@[5], "water"@,
            ColorRgba { r: 0, g: 0, b: 200, a: 100 }, false),
        spec_standard_block(final(registry)@[6], "sand"@,
            ColorRgba { r: 224, g: 200, b: 130, a: 255 }, true),
{
    proof {
        reveal_strlit("empty");
        reveal_strlit("stone");
        reveal_strlit("dirt");
        reveal_strlit("grass");
        reveal_strlit("snowy_grass");
        reveal_strlit("water");
        reveal_strlit("sand");
    }
    proof {
        lemma_find_name_none(registry@, "empty"@, 0);
    }
    let _ = registry.push_object(empty_block());
    proof {
        assert("empty"@ != "stone"@) by {
            assert("empty"@[0] != "stone"@[0]);
        };
        lemma_find_name_none(registry@, "stone"@, 0);
    }
    let _ = registry.push_object(standard_block("stone", 64, 64, 64, 255, true));
    proof {
        assert("empty"@ != "dirt"@) by {
            assert("empty"@.len() != "dirt"@.len());
        };
        assert("stone"@ != "dirt"@) by {
            assert("stone"@.len() != "dirt"@.len());
        };
        lemma_find_name_none(registry@, "dirt"@, 0);
    }
    let _ = registry.push_object(standard_block("dirt", 110, 81, 0, 255, true));
    proof {
        assert("empty"@ != "grass"@) by {
            assert("empty"@[0] != "grass"@[0]);
        };
        assert("stone"@ != "grass"@) by {
            assert("stone"@[0] != "grass"@[0]);
        };
        lemma_find_name_none(registry@, "grass"@, 0);
    }
    let _ = registry.push_object(standard_block("grass", 30, 230, 30, 255, true));
    proof {
        assert("empty"@ != "snowy_grass"@) by {
            assert("empty"@.len() != "snowy_grass"@.len());
        };
        assert("stone"@ != "snowy_grass"@) by {
            assert("stone"@.len() != "snowy_grass"@.len());
        };
        assert("dirt"@ != "snowy_grass"@) by {
            assert("dirt"@.len() != "snowy_grass"@.len());
        };
        assert("grass"@ != "snowy_grass"@) by {
            assert("grass"@.len() != "snowy_grass"@.len());
        };
        lemma_find_name_none(registry@, "snowy_grass"@, 0);
    }
    let _ = registry.push_object(standard_block("snowy_grass", 200, 200, 200, 255, true));
    proof {
        assert("empty"@ != "water"@) by {
            assert("empty"@[0] != "water"@[0]);
        };
        assert("stone"@ != "water"@) by {
            assert("stone"@[0] != "water"@[0]);
        };
        assert("grass"@ != "water"@) by {
            assert("grass"@[0] != "water"@[0]);
        };
        assert("dirt"@ != "water"@) by {
            assert("dirt"@.len() != "water"@.len());
        };
        assert("snowy_grass"@ != "water"@) by {
            assert("snowy_grass"@.len() != "water"@.len());
        };
        lemma_find_name_none(registry@, "water"@, 0);
    }
    let _ = registry.push_object(standard_block("water", 0, 0, 200, 100, false));
    proof {
        assert("dirt"@ != "sand"@) by {
            assert("dirt"@[0] != "sand"@[0]);
        };
        assert("empty"@ != "sand"@) by {
            assert("empty"@.len() != "sand"@.len());
        };
        assert("stone"@ != "sand"@) by {
            assert("stone"@.len() != "sand"@.len());
        };
        assert("grass"@ != "sand"@) by {
            assert("grass"@.len() != "sand"@.len());
        };
        assert("snowy_grass"@ != "sand"@) by {
            assert("snowy_grass"@.len() != "sand"@.len());
        };
        assert("water"@ != "sand"@) by {
            assert("water"@.len() != "sand"@.len());
        };
        lemma_find_name_none(registry@, "sand"@, 0);
    }
    let _ = registry.push_object(standard_block("sand", 224, 200, 130, 255, true));
    Ok(())
}

} // verus!
