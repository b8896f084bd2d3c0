//! The builtin biome types.

use vstd::prelude::*;

use crate::registry::{RegistryName, RegistryObject, RegistryError, spec_find_name,
    lemma_find_name_none};
use crate::voxeltypes::ColorRgba;
use crate::biome::{BiomeRegistry, BiomeDefinition, BlockRule, ClimateRange, SurfaceNoise,
    SurfaceTerm, biomes_wf, CLIMATE_LO_OPEN, CLIMATE_HI_OPEN, NoiseValues, GeneratableBiome,
    spec_first_matching};
use crate::generator::spec_generatable;

verus! {

/// The names of the basic biomes, in registration order.
pub open spec fn basic_biome_names() -> Seq<Seq<char>> {
    seq!["void"@, "plains"@, "hills"@, "mountains"@, "ocean"@]
}

/// The soil profile the land biomes share: grass at the surface (snowy
/// grass from altitude 80 up), five blocks of dirt beneath, stone below.
pub open spec fn spec_soil_rule(r: BlockRule) -> bool {
    r matches BlockRule::LayeredSurface { surface, snow, snow_min_y, shallow, shallow_depth,
        deep } && surface.key@ == "grass"@ && snow.key@ == "snowy_grass"@ && snow_min_y == 80
        && shallow.key@ == "dirt"@ && shallow_depth == 5 && deep.key@ == "stone"@
}

/// The flooded profile of the water biomes: stone under the sea floor,
/// water between ground and sea level, nothing above.
pub open spec fn spec_flooded_rule(r: BlockRule) -> bool {
    r matches BlockRule::Flooded { solid, fluid } && solid.key@ == "stone"@
        && fluid.key@ == "water"@
}

/// The soil profile rule the land biomes share: grass at the surface (a
/// snowy variant at high altitude), a shallow band of dirt, stone below.
fn soil_rule() -> (r: BlockRule)
    ensures
        crate::biome::block_rule_bounds(r),
        spec_soil_rule(r),
{
    BlockRule::LayeredSurface {
        surface: RegistryName::of("grass"),
        snow: RegistryName::of("snowy_grass"),
        snow_min_y: 80,
        shallow: RegistryName::of("dirt"),
        shallow_depth: 5,
        deep: RegistryName::of("stone"),
    }
}

/// The flooded profile rule of the water biomes: stone under the sea
/// floor, water up to sea level.
fn flooded_rule() -> (r: BlockRule)
    ensures
        crate::biome::block_rule_bounds(r),
        spec_flooded_rule(r),
{
    BlockRule::Flooded {
        solid: RegistryName::of("stone"),
        fluid: RegistryName::of("water"),
    }
}

/// One surface-noise term.
fn term(freq: i64, amp: i64, ridged: bool) -> (t: SurfaceTerm)
    ensures
        t == (SurfaceTerm { freq, amp, ridged }),
{
    SurfaceTerm { freq, amp, ridged }
}

/// The void biome: the blending default, never generated, with no block
/// influence of its own.
pub open spec fn spec_void_biome(b: BiomeDefinition) -> bool {
    &&& b.spec_name() == "void"@
    &&& spec_flooded_rule(b.rule_source)
    &&& b.surface_noise.terms@ == Seq::<SurfaceTerm>::empty()
    &&& b.blend_influence == 1024
    &&& b.block_influence == 0
    &&& !b.can_generate
}

/// The plains biome: low elevation, dry side of the moisture scale, the
/// shared soil profile, half blend influence.
pub open spec fn spec_plains_biome(b: BiomeDefinition) -> bool {
    &&& b.spec_name() == "plains"@
    &&& b.elevation == (ClimateRange { lo: 1024, hi: 2560 })
    &&& b.temperature == (ClimateRange { lo: CLIMATE_LO_OPEN, hi: CLIMATE_HI_OPEN })
    &&& b.moisture == (ClimateRange { lo: CLIMATE_LO_OPEN, hi: 2560 })
    &&& spec_soil_rule(b.rule_source)
    &&& b.surface_noise == (SurfaceNoise {
        input_scale: 2048,
        terms: b.surface_noise.terms,
        out_scale: 5120,
        out_offset: 0,
    })
    &&& b.surface_noise.terms@ == seq![
        SurfaceTerm { freq: 1024, amp: 768, ridged: false },
        SurfaceTerm { freq: 2048, amp: 256, ridged: false },
    ]
    &&& b.blend_influence == 512
    &&& b.block_influence == 1024
    &&& b.can_generate
}

/// The hills biome: middle elevations, gentle rolling surface.
pub open spec fn spec_hills_biome(b: BiomeDefinition) -> bool {
    &&& b.spec_name() == "hills"@
    &&& b.elevation == (ClimateRange { lo: 2560, hi: 3584 })
    &&& b.temperature == (ClimateRange { lo: CLIMATE_LO_OPEN, hi: CLIMATE_HI_OPEN })
    &&& b.moisture == (ClimateRange { lo: CLIMATE_LO_OPEN, hi: 2560 })
    &&& spec_soil_rule(b.rule_source)
    &&& b.surface_noise == (SurfaceNoise {
        input_scale: 16384,
        terms: b.surface_noise.terms,
        out_scale: 512,
        out_offset: 1024,
    })
    &&& b.surface_noise.terms@ == seq![
        SurfaceTerm { freq: 1024, amp: 614, ridged: false },
        SurfaceTerm { freq: 1536, amp: 256, ridged: false },
        SurfaceTerm { freq: 3072, amp: 154, ridged: false },
    ]
    &&& b.blend_influence == 1024
    &&& b.block_influence == 1024
    &&& b.can_generate
}

/// The mountains biome: high elevations, ridged surface terms.
pub open spec fn spec_mountains_biome(b: BiomeDefinition) -> bool {
    &&& b.spec_name() == "mountains"@
    &&& b.elevation == (ClimateRange { lo: 3584, hi: CLIMATE_HI_OPEN })
    &&& b.temperature == (ClimateRange { lo: CLIMATE_LO_OPEN, hi: CLIMATE_HI_OPEN })
    &&& b.moisture == (ClimateRange { lo: CLIMATE_LO_OPEN, hi: 2560 })
    &&& spec_soil_rule(b.rule_source)
    &&& b.surface_noise == (SurfaceNoise {
        input_scale: 16384,
        terms: b.surface_noise.terms,
        out_scale: 15360,
        out_offset: 2048,
    })
    &&& b.surface_noise.terms@ == seq![
        SurfaceTerm { freq: 5120, amp: 461, ridged: true },
        SurfaceTerm { freq: 2048, amp: 338, ridged: false },
        SurfaceTerm { freq: 1024, amp: 676, ridged: false },
        SurfaceTerm { freq: 9216, amp: 102, ridged: true },
    ]
    &&& b.blend_influence == 1024
    &&& b.block_influence == 1024
    &&& b.can_generate
}

/// The ocean biome: low elevation and wet, the flooded profile, an
/// inverted surface dipping below sea level.
pub open spec fn spec_ocean_biome(b: BiomeDefinition) -> bool {
    &&& b.spec_name() == "ocean"@
    &&& b.elevation == (ClimateRange { lo: CLIMATE_LO_OPEN, hi: 1024 })
    &&& b.temperature == (ClimateRange { lo: CLIMATE_LO_OPEN, hi: CLIMATE_HI_OPEN })
    &&& b.moisture == (ClimateRange { lo: 2560, hi: CLIMATE_HI_OPEN })
    &&& spec_flooded_rule(b.rule_source)
    &&& b.surface_noise == (SurfaceNoise {
        input_scale: 1024,
        terms: b.surface_noise.terms,
        out_scale: 1024,
        out_offset: 1024,
    })
    &&& b.surface_noise.terms@ == seq![SurfaceTerm { freq: 1024, amp: (-7680) as i64, ridged: false }]
    &&& b.blend_influence == 1024
    &&& b.block_influence == 1024
    &&& b.can_generate
}

/// Installs the base set of biomes into the given biome registry: the void
/// biome (the blending default, never generated) and four generatable
/// biomes whose climate ranges cover most but not all of the climate
/// space, so the random-fallback path remains reachable.
pub fn setup_basic_biomes(biome_registry: &mut BiomeRegistry) -> (r: Result<(),
    RegistryError>)
    requires
        old(biome_registry)@.len() == 0,
    ensures
        r is Ok,
        final(biome_registry)@.len() == 5,
        forall|k: int| 0 <= k < 5
            ==> (#[trigger] final(biome_registry)@[k]).spec_name() == basic_biome_names()[k],
        biomes_wf(final(biome_registry)@),
        spec_void_biome(final(biome_registry)@[0]),
        spec_plains_biome(final(biome_registry)@[1]),
        spec_hills_biome(final(biome_registry)@[2]),
        spec_mountains_biome(final(biome_registry)@[3]),
        spec_ocean_biome(final(biome_registry)@[4]),
        spec_find_name(final(biome_registry)@, "void"@, 0) == Some(0int),
{
    proof {
        reveal_strlit("void");
        reveal_strlit("plains");
        reveal_strlit("hills");
        reveal_strlit("mountains");
        reveal_strlit("ocean");
    }
    proof {
        lemma_find_name_none(biome_registry@, "void"@, 0);
    }
    let mut void_terms: Vec<SurfaceTerm> = Vec::new();
    proof {
        assert(void_terms@ =~= Seq::<SurfaceTerm>::empty());
    }
    let _ = biome_registry.push_object(BiomeDefinition {
        name: RegistryName::of("void"),
        representative_color: ColorRgba::new(0, 0, 0, 255),
        elevation: ClimateRange::full(),
        temperature: ClimateRange::full(),
        moisture: ClimateRange::full(),
        rule_source: flooded_rule(),
        surface_noise: SurfaceNoise {
            input_scale: 1024,
            terms: void_terms,
            out_scale: 1024,
            out_offset: 0,
        },
        blend_influence: 1024,
        block_influence: 0,
        can_generate: false,
    });
    proof {
        assert("void"@ != "plains"@) by {
            assert("void"@.len() != "plains"@.len());
        };
        lemma_find_name_none(biome_registry@, "plains"@, 0);
    }
    let mut plains_terms: Vec<SurfaceTerm> = Vec::new();
    plains_terms.push(term(1024, 768, false));
    plains_terms.push(term(2048, 256, false));
    proof {
        assert(plains_terms@ =~= seq![
            SurfaceTerm { freq: 1024, amp: 768, ridged: false },
            SurfaceTerm { freq: 2048, amp: 256, ridged: false },
        ]);
    }
    let _ = biome_registry.push_object(BiomeDefinition {
        name: RegistryName::of("plains"),
        representative_color: ColorRgba::new(20, 180, 10, 255),
        elevation: ClimateRange::between(1024, 2560),
        temperature: ClimateRange::full(),
        moisture: ClimateRange::below(2560),
        rule_source: soil_rule(),
        surface_noise: SurfaceNoise {
            input_scale: 2048,
            terms: plains_terms,
            out_scale: 5120,
            out_offset: 0,
        },
        blend_influence: 512,
        block_influence: 1024,
        can_generate: true,
    });
    proof {
        assert("void"@ != "hills"@) by {
            assert("void"@.len() != "hills"@.len());
        };
        assert("plains"@ != "hills"@) by {
            assert("plains"@.len() != "hills"@.len());
        };
        lemma_find_name_none(biome_registry@, "hills"@, 0);
    }
    let mut hills_terms: Vec<SurfaceTerm> = Vec::new();
    hills_terms.push(term(1024, 614, false));
    hills_terms.push(term(1536, 256, false));
    hills_terms.push(term(3072, 154, false));
    proof {
        assert(hills_terms@ =~= seq![
            SurfaceTerm { freq: 1024, amp: 614, ridged: false },
            SurfaceTerm { freq: 1536, amp: 256, ridged: false },
            SurfaceTerm { freq: 3072, amp: 154, ridged: false },
        ]);
    }
    let _ = biome_registry.push_object(BiomeDefinition {
        name: RegistryName::of("hills"),
        representative_color: ColorRgba::new(15, 110, 10, 255),
        elevation: ClimateRange::between(2560, 3584),
        temperature: ClimateRange::full(),
        moisture: ClimateRange::below(2560),
        rule_source: soil_rule(),
        surface_noise: SurfaceNoise {
            input_scale: 16384,
            terms: hills_terms,
            out_scale: 512,
            out_offset: 1024,
        },
        blend_influence: 1024,
        block_influence: 1024,
        can_generate: true,
    });
    proof {
        assert("void"@ != "mountains"@) by {
            assert("void"@.len() != "mountains"@.len());
        };
        assert("plains"@ != "mountains"@) by {
            assert("plains"@.len() != "mountains"@.len());
        };
        assert("hills"@ != "mountains"@) by {
            assert("hills"@.len() != "mountains"@.len());
        };
        lemma_find_name_none(biome_registry@, "mountains"@, 0);
    }
    let mut mountain_terms: Vec<SurfaceTerm> = Vec::new();
    mountain_terms.push(term(5120, 461, true));
    mountain_terms.push(term(2048, 338, false));
    mountain_terms.push(term(1024, 676, false));
    mountain_terms.push(term(9216, 102, true));
    proof {
        assert(mountain_terms@ =~= seq![
            SurfaceTerm { freq: 5120, amp: 461, ridged: true },
            SurfaceTerm { freq: 2048, amp: 338, ridged: false },
            SurfaceTerm { freq: 1024, amp: 676, ridged: false },
            SurfaceTerm { freq: 9216, amp: 102, ridged: true },
        ]);
    }
    let _ = biome_registry.push_object(BiomeDefinition {
        name: RegistryName::of("mountains"),
        representative_color: ColorRgba::new(220, 220, 220, 255),
        elevation: ClimateRange::at_least(3584),
        temperature: ClimateRange::full(),
        moisture: ClimateRange::below(2560),
        rule_source: soil_rule(),
        surface_noise: SurfaceNoise {
            input_scale: 16384,
            terms: mountain_terms,
            out_scale: 15360,
            out_offset: 2048,
        },
        blend_influence: 1024,
        block_influence: 1024,
        can_generate: true,
    });
    proof {
        assert("void"@ != "ocean"@) by {
            assert("void"@.len() != "ocean"@.len());
        };
        assert("plains"@ != "ocean"@) by {
            assert("plains"@.len() != "ocean"@.len());
        };
        assert("hills"@ != "ocean"@) by {
            assert("hills"@[0] != "ocean"@[0]);
        };
        assert("mountains"@ != "ocean"@) by {
            assert("mountains"@.len() != "ocean"@.len());
        };
        lemma_find_name_none(biome_registry@, "ocean"@, 0);
    }
    let mut ocean_terms: Vec<SurfaceTerm> = Vec::new();
    ocean_terms.push(term(1024, -7680, false));
    proof {
        assert(ocean_terms@ =~= seq![SurfaceTerm { freq: 1024, amp: (-7680) as i64, ridged: false }]);
    }
    let _ = biome_registry.push_object(BiomeDefinition {
        name: RegistryName::of("ocean"),
        representative_color: ColorRgba::new(10, 120, 180, 255),
        elevation: ClimateRange::below(1024),
        temperature: ClimateRange::full(),
        moisture: ClimateRange::at_least(2560),
        rule_source: flooded_rule(),
        surface_noise: SurfaceNoise {
            input_scale: 1024,
            terms: ocean_terms,
            out_scale: 1024,
            out_offset: 1024,
        },
        blend_influence: 1024,
        block_influence: 1024,
        can_generate: true,
    });
    Ok(())
}

/// The basic biomes leave a climate gap: a dry low-elevation triple (all
/// zeros, a reachable climate value) matches none of the four generatable
/// biomes, so the reported random-fallback path of biome assignment is
/// reachable under this registry.
pub proof fn lemma_basic_biomes_leave_a_gap(biomes: Seq<BiomeDefinition>)
    requires
        biomes.len() == 5,
        spec_void_biome(biomes[0]),
        spec_plains_biome(biomes[1]),
        spec_hills_biome(biomes[2]),
        spec_mountains_biome(biomes[3]),
        spec_ocean_biome(biomes[4]),
    ensures
        ({
            let gap = NoiseValues { elevation: 0, temperature: 0, moisture: 0 };
            &&& gap.wf()
            &&& spec_first_matching(spec_generatable(biomes, 0), gap, 0) is None
        }),
{
    let gap = NoiseValues { elevation: 0, temperature: 0, moisture: 0 };
    let g = spec_generatable(biomes, 0);
    assert(spec_generatable(biomes, 5) =~= Seq::<GeneratableBiome>::empty());
    assert(spec_generatable(biomes, 4).len() == 1);
    assert(spec_generatable(biomes, 3).len() == 2);
    assert(spec_generatable(biomes, 2).len() == 3);
    assert(spec_generatable(biomes, 1).len() == 4);
    assert(g.len() == 4);
    assert(g[0].elevation.lo == 1024 && g[1].elevation.lo == 2560
        && g[2].elevation.lo == 3584 && g[3].moisture.lo == 2560);
    assert(spec_first_matching(g, gap, 4) is None);
    assert(spec_first_matching(g, gap, 3) is None);
    assert(spec_first_matching(g, gap, 2) is None);
    assert(spec_first_matching(g, gap, 1) is None);
    assert(spec_first_matching(g, gap, 0) is None);
}

} // verus!
